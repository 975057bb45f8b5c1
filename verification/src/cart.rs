//! The shopping cart of the order screen.
//!
//! A cart holds one line per product variation: adding a variation that is
//! already in the cart raises that line's quantity, adding a new one appends a
//! line with quantity one. Lines can be removed, their quantities set, and the
//! cart cleared. Prices stay as the text that the product screen showed
//! (their first word); turning them into numbers is left to the caller.
use vstd::prelude::*;

use crate::seqs::{first_index, lemma_first_index_at, lemma_first_index_spec};
use crate::text::{first_word, first_word_of};

verus! {

/// A variation of the product on screen, as the add-to-cart action sees it.
pub struct VariationChoice {
    pub id: i32,
    pub dimensions: String,
    pub packaging: String,
    pub standard: String,
    /// The displayed total price, such as `"12.50 RON"`.
    pub price_total: String,
}

pub struct VariationChoiceView {
    pub id: i32,
    pub dimensions: Seq<char>,
    pub packaging: Seq<char>,
    pub standard: Seq<char>,
    pub price_total: Seq<char>,
}

impl View for VariationChoice {
    type V = VariationChoiceView;

    open spec fn view(&self) -> VariationChoiceView {
        VariationChoiceView {
            id: self.id,
            dimensions: self.dimensions@,
            packaging: self.packaging@,
            standard: self.standard@,
            price_total: self.price_total@,
        }
    }
}

/// One line of the cart.
pub struct CartLine {
    pub variation_id: i32,
    pub product_name: String,
    pub dimensions: String,
    pub packaging: String,
    pub standard: String,
    /// The first word of the variation's displayed price.
    pub price_text: String,
    pub quantity: i32,
}

pub struct CartLineView {
    pub variation_id: i32,
    pub product_name: Seq<char>,
    pub dimensions: Seq<char>,
    pub packaging: Seq<char>,
    pub standard: Seq<char>,
    pub price_text: Seq<char>,
    pub quantity: i32,
}

impl View for CartLine {
    type V = CartLineView;

    open spec fn view(&self) -> CartLineView {
        CartLineView {
            variation_id: self.variation_id,
            product_name: self.product_name@,
            dimensions: self.dimensions@,
            packaging: self.packaging@,
            standard: self.standard@,
            price_text: self.price_text@,
            quantity: self.quantity,
        }
    }
}

impl CartLine {
    /// A copy of this line with quantity `quantity`.
    pub fn with_quantity(&self, quantity: i32) -> (r: CartLine)
        ensures
            r@ == (CartLineView { quantity, ..self@ }),
    {
        CartLine {
            variation_id: self.variation_id,
            product_name: self.product_name.clone(),
            dimensions: self.dimensions.clone(),
            packaging: self.packaging.clone(),
            standard: self.standard.clone(),
            price_text: self.price_text.clone(),
            quantity,
        }
    }
}

/// What one cart line contributes to an order.
pub struct OrderLine {
    pub variation_id: i64,
    pub quantity: i64,
}

/// The shopping cart.
pub struct Cart {
    lines: Vec<CartLine>,
}

impl View for Cart {
    type V = Seq<CartLineView>;

    closed spec fn view(&self) -> Seq<CartLineView> {
        self.lines@.map_values(|l: CartLine| l@)
    }
}

/// Matches a cart line by its variation.
pub open spec fn line_is(id: i32) -> spec_fn(CartLineView) -> bool {
    |l: CartLineView| l.variation_id == id
}

/// Matches a variation by its id.
pub open spec fn choice_is(id: i32) -> spec_fn(VariationChoiceView) -> bool {
    |v: VariationChoiceView| v.id == id
}

/// Where the line of variation `id` stands in `lines`, or -1.
pub open spec fn line_position(lines: Seq<CartLineView>, id: i32) -> int {
    first_index(lines, line_is(id))
}

/// No variation has two lines.
pub open spec fn ids_unique(lines: Seq<CartLineView>) -> bool {
    forall|i: int, j: int|
        0 <= i < lines.len() && 0 <= j < lines.len() && i != j ==> #[trigger] lines[i].variation_id
            != #[trigger] lines[j].variation_id
}

/// The line that adding variation `v` of product `product_name` creates.
pub open spec fn new_line(product_name: Seq<char>, v: VariationChoiceView) -> CartLineView {
    CartLineView {
        variation_id: v.id,
        product_name,
        dimensions: v.dimensions,
        packaging: v.packaging,
        standard: v.standard,
        price_text: first_word(v.price_total),
        quantity: 1,
    }
}

/// The cart after adding variation `id` of the product on screen: nothing
/// changes when the product has no such variation; otherwise the line of that
/// variation gets one more unit, or a new line with one unit is appended.
pub open spec fn after_add(
    lines: Seq<CartLineView>,
    product_name: Seq<char>,
    variations: Seq<VariationChoiceView>,
    id: i32,
) -> Seq<CartLineView> {
    let vi = first_index(variations, choice_is(id));
    let ci = line_position(lines, id);
    if vi < 0 {
        lines
    } else if ci < 0 {
        lines.push(new_line(product_name, variations[vi]))
    } else {
        lines.update(ci, CartLineView { quantity: (lines[ci].quantity + 1) as i32, ..lines[ci] })
    }
}

/// The cart after removing the line of variation `id`, if there is one.
pub open spec fn after_remove(lines: Seq<CartLineView>, id: i32) -> Seq<CartLineView> {
    let ci = line_position(lines, id);
    if ci < 0 {
        lines
    } else {
        lines.remove(ci)
    }
}

/// The cart after setting the quantity of variation `id` to `quantity`, if
/// it has a line.
pub open spec fn after_set_quantity(
    lines: Seq<CartLineView>,
    id: i32,
    quantity: i32,
) -> Seq<CartLineView> {
    let ci = line_position(lines, id);
    if ci < 0 {
        lines
    } else {
        lines.update(ci, CartLineView { quantity, ..lines[ci] })
    }
}

/// Whether adding variation `id` again would overflow its quantity.
pub open spec fn add_overflows(lines: Seq<CartLineView>, id: i32) -> bool {
    let ci = line_position(lines, id);
    ci >= 0 && lines[ci].quantity == i32::MAX
}

/// A line that is not the first match of `id` does not match `id`, when
/// variations are unique.
proof fn lemma_unique_position(lines: Seq<CartLineView>, id: i32, k: int)
    requires
        ids_unique(lines),
        0 <= k < lines.len(),
        lines[k].variation_id == id,
    ensures
        line_position(lines, id) == k,
{
    lemma_first_index_spec(lines, line_is(id));
    let ci = line_position(lines, id);
    assert(line_is(id)(lines[k]));
    if ci != k {
        assert(ci >= 0);
        assert(line_is(id)(lines[ci]));
    }
}

/// Adding keeps each variation on at most one line.
pub proof fn lemma_add_keeps_ids_unique(
    lines: Seq<CartLineView>,
    product_name: Seq<char>,
    variations: Seq<VariationChoiceView>,
    id: i32,
)
    requires
        ids_unique(lines),
    ensures
        ids_unique(after_add(lines, product_name, variations, id)),
{
    lemma_first_index_spec(lines, line_is(id));
    lemma_first_index_spec(variations, choice_is(id));
    let vi = first_index(variations, choice_is(id));
    let ci = line_position(lines, id);
    let r = after_add(lines, product_name, variations, id);
    if vi >= 0 && ci < 0 {
        assert(choice_is(id)(variations[vi]));
        assert forall|i: int, j: int|
            0 <= i < r.len() && 0 <= j < r.len() && i != j implies #[trigger] r[i].variation_id
            != #[trigger] r[j].variation_id by {
            if i == lines.len() {
                assert(!line_is(id)(lines[j]));
            } else if j == lines.len() {
                assert(!line_is(id)(lines[i]));
            }
        }
    }
}

/// Removing keeps each variation on at most one line.
pub proof fn lemma_remove_keeps_ids_unique(lines: Seq<CartLineView>, id: i32)
    requires
        ids_unique(lines),
    ensures
        ids_unique(after_remove(lines, id)),
{
    lemma_first_index_spec(lines, line_is(id));
    let ci = line_position(lines, id);
    let r = after_remove(lines, id);
    if ci >= 0 {
        assert forall|i: int, j: int|
            0 <= i < r.len() && 0 <= j < r.len() && i != j implies #[trigger] r[i].variation_id
            != #[trigger] r[j].variation_id by {
            let i0 = if i < ci {
                i
            } else {
                i + 1
            };
            let j0 = if j < ci {
                j
            } else {
                j + 1
            };
            assert(r[i] == lines[i0]);
            assert(r[j] == lines[j0]);
        }
    }
}

/// Setting a quantity keeps each variation on at most one line.
pub proof fn lemma_set_quantity_keeps_ids_unique(lines: Seq<CartLineView>, id: i32, quantity: i32)
    requires
        ids_unique(lines),
    ensures
        ids_unique(after_set_quantity(lines, id, quantity)),
{
    lemma_first_index_spec(lines, line_is(id));
    let r = after_set_quantity(lines, id, quantity);
    assert forall|i: int, j: int|
        0 <= i < r.len() && 0 <= j < r.len() && i != j implies #[trigger] r[i].variation_id
        != #[trigger] r[j].variation_id by {
        assert(r[i].variation_id == lines[i].variation_id);
        assert(r[j].variation_id == lines[j].variation_id);
    }
}

/// Law: removing a variation right after adding it for the first time gives
/// back the cart as it was.
pub proof fn law_remove_undoes_first_add(
    lines: Seq<CartLineView>,
    product_name: Seq<char>,
    variations: Seq<VariationChoiceView>,
    id: i32,
)
    requires
        ids_unique(lines),
        line_position(lines, id) < 0,
    ensures
        after_remove(after_add(lines, product_name, variations, id), id) == lines,
{
    lemma_first_index_spec(variations, choice_is(id));
    let vi = first_index(variations, choice_is(id));
    if vi >= 0 {
        let added = after_add(lines, product_name, variations, id);
        lemma_first_index_spec(lines, line_is(id));
        assert(choice_is(id)(variations[vi]));
        assert forall|j: int| 0 <= j < lines.len() implies !line_is(id)(#[trigger] added[j]) by {
            assert(added[j] == lines[j]);
            assert(!line_is(id)(lines[j]));
        }
        lemma_first_index_at(added, line_is(id), lines.len() as int);
        assert(added.remove(lines.len() as int) =~= lines);
    }
}

/// Law: adding a variation that already has a line keeps the number of
/// lines and raises that line's quantity by exactly one; the other lines are
/// unchanged.
pub proof fn law_add_existing_increments(
    lines: Seq<CartLineView>,
    product_name: Seq<char>,
    variations: Seq<VariationChoiceView>,
    id: i32,
    k: int,
)
    requires
        ids_unique(lines),
        0 <= k < lines.len(),
        lines[k].variation_id == id,
        first_index(variations, choice_is(id)) >= 0,
        lines[k].quantity < i32::MAX,
    ensures
        after_add(lines, product_name, variations, id).len() == lines.len(),
        after_add(lines, product_name, variations, id)[k].quantity == lines[k].quantity + 1,
        after_add(lines, product_name, variations, id)[k].variation_id == id,
        forall|j: int|
            0 <= j < lines.len() && j != k ==> #[trigger] after_add(
                lines,
                product_name,
                variations,
                id,
            )[j] == lines[j],
{
    lemma_unique_position(lines, id, k);
}

/// Law: adding a variation that has no line yet appends exactly one line,
/// with quantity one, and keeps the others.
pub proof fn law_add_new_appends(
    lines: Seq<CartLineView>,
    product_name: Seq<char>,
    variations: Seq<VariationChoiceView>,
    id: i32,
)
    requires
        line_position(lines, id) < 0,
        first_index(variations, choice_is(id)) >= 0,
    ensures
        after_add(lines, product_name, variations, id).len() == lines.len() + 1,
        after_add(lines, product_name, variations, id).last().quantity == 1,
        after_add(lines, product_name, variations, id).last().variation_id == id,
        after_add(lines, product_name, variations, id).drop_last() == lines,
{
    lemma_first_index_spec(variations, choice_is(id));
    let vi = first_index(variations, choice_is(id));
    assert(choice_is(id)(variations[vi]));
    assert(after_add(lines, product_name, variations, id).drop_last() =~= lines);
}

/// Law: a variation that the product on screen does not offer is never
/// added.
pub proof fn law_add_unknown_is_noop(
    lines: Seq<CartLineView>,
    product_name: Seq<char>,
    variations: Seq<VariationChoiceView>,
    id: i32,
)
    requires
        forall|j: int| 0 <= j < variations.len() ==> #[trigger] variations[j].id != id,
    ensures
        after_add(lines, product_name, variations, id) == lines,
{
    lemma_first_index_at(variations, choice_is(id), variations.len() as int);
}

/// Law: setting a quantity twice is the same as setting the second one.
pub proof fn law_set_quantity_last_wins(lines: Seq<CartLineView>, id: i32, a: i32, b: i32)
    ensures
        after_set_quantity(after_set_quantity(lines, id, a), id, b) == after_set_quantity(
            lines,
            id,
            b,
        ),
{
    lemma_first_index_spec(lines, line_is(id));
    let ci = line_position(lines, id);
    if ci >= 0 {
        let once = after_set_quantity(lines, id, a);
        assert forall|j: int| 0 <= j < ci implies !line_is(id)(#[trigger] once[j]) by {
            assert(once[j] == lines[j]);
            assert(!line_is(id)(lines[j]));
        }
        assert(line_is(id)(lines[ci]));
        lemma_first_index_at(once, line_is(id), ci);
        assert(after_set_quantity(once, id, b) =~= after_set_quantity(lines, id, b));
    }
}

/// Law: after removing variation `id`, no line holds it.
pub proof fn law_remove_removes(lines: Seq<CartLineView>, id: i32)
    requires
        ids_unique(lines),
    ensures
        forall|j: int|
            0 <= j < after_remove(lines, id).len() ==> #[trigger] after_remove(
                lines,
                id,
            )[j].variation_id != id,
{
    lemma_first_index_spec(lines, line_is(id));
    let ci = line_position(lines, id);
    let r = after_remove(lines, id);
    assert forall|j: int| 0 <= j < r.len() implies #[trigger] r[j].variation_id != id by {
        if ci < 0 {
            assert(!line_is(id)(lines[j]));
        } else {
            let j0 = if j < ci {
                j
            } else {
                j + 1
            };
            assert(r[j] == lines[j0]);
            if j0 < ci {
                assert(!line_is(id)(lines[j0]));
            } else {
                assert(line_is(id)(lines[ci]));
                assert(lines[ci].variation_id != lines[j0].variation_id);
            }
        }
    }
}

/// Law: adding a variation that has no line yet appends a line that carries
/// the details of the first variation of the product with that id: its
/// dimensions, packaging and standard, the first word of its price, the
/// product's name and quantity one; the other lines stay as they were.
pub proof fn law_add_new_line_carries_the_variation(
    lines: Seq<CartLineView>,
    product_name: Seq<char>,
    variations: Seq<VariationChoiceView>,
    id: i32,
    j: int,
)
    requires
        forall|i: int| 0 <= i < lines.len() ==> #[trigger] lines[i].variation_id != id,
        0 <= j < variations.len(),
        variations[j].id == id,
        forall|k: int| 0 <= k < j ==> #[trigger] variations[k].id != id,
    ensures
        after_add(lines, product_name, variations, id).len() == lines.len() + 1,
        forall|i: int|
            0 <= i < lines.len() ==> #[trigger] after_add(lines, product_name, variations, id)[i]
                == lines[i],
        after_add(lines, product_name, variations, id).last().variation_id == id,
        after_add(lines, product_name, variations, id).last().product_name == product_name,
        after_add(lines, product_name, variations, id).last().dimensions
            == variations[j].dimensions,
        after_add(lines, product_name, variations, id).last().packaging
            == variations[j].packaging,
        after_add(lines, product_name, variations, id).last().standard == variations[j].standard,
        after_add(lines, product_name, variations, id).last().price_text == first_word(
            variations[j].price_total,
        ),
        after_add(lines, product_name, variations, id).last().quantity == 1,
{
    assert forall|k: int| 0 <= k < j implies !choice_is(id)(#[trigger] variations[k]) by {
        assert(variations[k].id != id);
    }
    assert(choice_is(id)(variations[j]));
    lemma_first_index_at(variations, choice_is(id), j);
    assert forall|k: int| 0 <= k < lines.len() implies !line_is(id)(#[trigger] lines[k]) by {
        assert(lines[k].variation_id != id);
    }
    lemma_first_index_at(lines, line_is(id), lines.len() as int);
}

/// Law: removing a variation that has a line drops exactly that line: one
/// line fewer, the lines before it unchanged, and the lines after it moved up
/// by one, in order.
pub proof fn law_remove_drops_exactly_one_line(lines: Seq<CartLineView>, id: i32, k: int)
    requires
        ids_unique(lines),
        0 <= k < lines.len(),
        lines[k].variation_id == id,
    ensures
        after_remove(lines, id).len() == lines.len() - 1,
        forall|i: int| 0 <= i < k ==> #[trigger] after_remove(lines, id)[i] == lines[i],
        forall|i: int| k <= i < lines.len() - 1 ==> #[trigger] after_remove(lines, id)[i] == lines[i
            + 1],
{
    lemma_unique_position(lines, id, k);
}

/// Law: setting the quantity of variation `id` keeps the number of lines,
/// leaves every line of another variation unchanged, and on the line of `id`
/// changes the quantity alone, to `quantity`.
pub proof fn law_set_quantity_touches_only_its_line(
    lines: Seq<CartLineView>,
    id: i32,
    quantity: i32,
)
    requires
        ids_unique(lines),
    ensures
        after_set_quantity(lines, id, quantity).len() == lines.len(),
        forall|i: int|
            0 <= i < lines.len() && lines[i].variation_id != id ==> #[trigger] after_set_quantity(
                lines,
                id,
                quantity,
            )[i] == lines[i],
        forall|i: int|
            0 <= i < lines.len() && lines[i].variation_id == id ==> #[trigger] after_set_quantity(
                lines,
                id,
                quantity,
            )[i] == (CartLineView { quantity, ..lines[i] }),
{
    lemma_first_index_spec(lines, line_is(id));
    let ci = line_position(lines, id);
    let r = after_set_quantity(lines, id, quantity);
    assert forall|i: int|
        0 <= i < lines.len() && lines[i].variation_id == id implies #[trigger] r[i] == (
    CartLineView { quantity, ..lines[i] }) by {
        lemma_unique_position(lines, id, i);
    }
    assert forall|i: int| 0 <= i < lines.len() && lines[i].variation_id != id implies #[trigger] r[i]
        == lines[i] by {
        if ci >= 0 {
            assert(line_is(id)(lines[ci]));
        }
    }
}

/// Where the first variation with id `id` stands in `variations`, if any.
pub fn find_choice(variations: &Vec<VariationChoice>, id: i32) -> (r: Option<usize>)
    ensures
        match r {
            Some(k) => first_index(variations@.map_values(|v: VariationChoice| v@), choice_is(id))
                == k as int && k < variations.len(),
            None => first_index(variations@.map_values(|v: VariationChoice| v@), choice_is(id))
                < 0,
        },
{
    let ghost vs = variations@.map_values(|v: VariationChoice| v@);
    let n: usize = variations.len();
    let mut k: usize = 0;
    while k < n
        invariant
            k <= n == variations.len(),
            vs == variations@.map_values(|v: VariationChoice| v@),
            forall|j: int| 0 <= j < k ==> !choice_is(id)(#[trigger] vs[j]),
        decreases n - k,
    {
        if variations[k].id == id {
            proof {
                assert(choice_is(id)(vs[k as int]));
                lemma_first_index_at(vs, choice_is(id), k as int);
            }
            return Some(k);
        }
        assert(!choice_is(id)(vs[k as int]));
        k = k + 1;
    }
    proof {
        lemma_first_index_at(vs, choice_is(id), n as int);
    }
    None
}

impl Cart {
    /// Every variation has at most one line.
    pub open spec fn wf(&self) -> bool {
        ids_unique(self@)
    }

    /// An empty cart.
    pub fn new() -> (r: Cart)
        ensures
            r@ == Seq::<CartLineView>::empty(),
            r.wf(),
    {
        let r = Cart { lines: Vec::new() };
        assert(r@ =~= Seq::<CartLineView>::empty());
        r
    }

    /// The lines, in the order they were added.
    pub fn lines(&self) -> (r: &Vec<CartLine>)
        ensures
            r@.map_values(|l: CartLine| l@) == self@,
    {
        &self.lines
    }

    /// The number of lines (the cart count on screen).
    pub fn len(&self) -> (r: usize)
        ensures
            r == self@.len(),
    {
        self.lines.len()
    }

    /// Where the line of variation `id` stands, if there is one.
    pub fn position(&self, id: i32) -> (r: Option<usize>)
        ensures
            match r {
                Some(i) => line_position(self@, id) == i as int && i < self@.len(),
                None => line_position(self@, id) < 0,
            },
    {
        let n: usize = self.lines.len();
        let mut i: usize = 0;
        while i < n
            invariant
                i <= n == self.lines.len(),
                forall|j: int| 0 <= j < i ==> !line_is(id)(#[trigger] self@[j]),
            decreases n - i,
        {
            if self.lines[i].variation_id == id {
                proof {
                    assert(line_is(id)(self@[i as int]));
                    lemma_first_index_at(self@, line_is(id), i as int);
                }
                return Some(i);
            }
            assert(!line_is(id)(self@[i as int]));
            i = i + 1;
        }
        proof {
            lemma_first_index_at(self@, line_is(id), n as int);
        }
        None
    }

    /// The quantity on the line of variation `id`, if there is one.
    pub fn quantity_of(&self, id: i32) -> (r: Option<i32>)
        ensures
            match r {
                Some(q) => line_position(self@, id) >= 0 && self@[line_position(
                    self@,
                    id,
                )].quantity == q,
                None => line_position(self@, id) < 0,
            },
    {
        match self.position(id) {
            Some(i) => Some(self.lines[i].quantity),
            None => None,
        }
    }

    /// Adds variation `variation_id` of the product on screen, named
    /// `product_name`, whose variations are `variations`. Returns whether the
    /// product offers that variation (the cart is unchanged when it does
    /// not).
    pub fn add(
        &mut self,
        product_name: &str,
        variations: &Vec<VariationChoice>,
        variation_id: i32,
    ) -> (found: bool)
        requires
            old(self).wf(),
            !add_overflows(old(self)@, variation_id),
        ensures
            final(self).wf(),
            final(self)@ == after_add(
                old(self)@,
                product_name@,
                variations@.map_values(|v: VariationChoice| v@),
                variation_id,
            ),
            found == (first_index(
                variations@.map_values(|v: VariationChoice| v@),
                choice_is(variation_id),
            ) >= 0),
    {
        let ghost vs = variations@.map_values(|v: VariationChoice| v@);
        let ghost before = self@;
        proof {
            lemma_add_keeps_ids_unique(before, product_name@, vs, variation_id);
        }
        let k: usize = match find_choice(variations, variation_id) {
            Some(k) => k,
            None => {
                return false;
            },
        };
        match self.position(variation_id) {
            Some(i) => {
                let q: i32 = self.lines[i].quantity;
                let line = self.lines[i].with_quantity(q + 1);
                self.lines.set(i, line);
                assert(self@ =~= after_add(before, product_name@, vs, variation_id));
            },
            None => {
                let v = &variations[k];
                let line = CartLine {
                    variation_id: v.id,
                    product_name: product_name.to_owned(),
                    dimensions: v.dimensions.clone(),
                    packaging: v.packaging.clone(),
                    standard: v.standard.clone(),
                    price_text: first_word_of(v.price_total.as_str()),
                    quantity: 1,
                };
                self.lines.push(line);
                assert(self@ =~= after_add(before, product_name@, vs, variation_id));
            },
        }
        true
    }

    /// Removes the line of variation `variation_id`, if there is one.
    pub fn remove(&mut self, variation_id: i32)
        requires
            old(self).wf(),
        ensures
            final(self).wf(),
            final(self)@ == after_remove(old(self)@, variation_id),
    {
        let ghost before = self@;
        proof {
            lemma_remove_keeps_ids_unique(before, variation_id);
        }
        match self.position(variation_id) {
            Some(i) => {
                self.lines.remove(i);
                assert(self@ =~= after_remove(before, variation_id));
            },
            None => {},
        }
    }

    /// Sets the quantity of the line of variation `variation_id`, if there
    /// is one.
    pub fn set_quantity(&mut self, variation_id: i32, quantity: i32)
        requires
            old(self).wf(),
        ensures
            final(self).wf(),
            final(self)@ == after_set_quantity(old(self)@, variation_id, quantity),
    {
        let ghost before = self@;
        proof {
            lemma_set_quantity_keeps_ids_unique(before, variation_id, quantity);
        }
        match self.position(variation_id) {
            Some(i) => {
                let line = self.lines[i].with_quantity(quantity);
                self.lines.set(i, line);
                assert(self@ =~= after_set_quantity(before, variation_id, quantity));
            },
            None => {},
        }
    }

    /// Empties the cart.
    pub fn clear(&mut self)
        ensures
            final(self)@ == Seq::<CartLineView>::empty(),
            final(self).wf(),
    {
        self.lines = Vec::new();
        assert(self@ =~= Seq::<CartLineView>::empty());
    }

    /// The lines of an order for this cart, in cart order; nothing when the
    /// cart is empty (an empty cart is never sent).
    pub fn order_lines(&self) -> (r: Option<Vec<OrderLine>>)
        ensures
            r is None <==> self@.len() == 0,
            r matches Some(v) ==> v@.len() == self@.len() && forall|i: int|
                0 <= i < v@.len() ==> #[trigger] v@[i].variation_id == self@[i].variation_id
                    && v@[i].quantity == self@[i].quantity,
    {
        let n: usize = self.lines.len();
        if n == 0 {
            return None;
        }
        let mut v: Vec<OrderLine> = Vec::new();
        let mut i: usize = 0;
        while i < n
            invariant
                i <= n == self.lines.len(),
                v@.len() == i,
                forall|j: int|
                    0 <= j < i ==> #[trigger] v@[j].variation_id == self@[j].variation_id
                        && v@[j].quantity == self@[j].quantity,
            decreases n - i,
        {
            let line = &self.lines[i];
            v.push(
                OrderLine { variation_id: line.variation_id as i64, quantity: line.quantity as i64 },
            );
            i = i + 1;
        }
        Some(v)
    }
}

} // verus!
