//! The variation rows of the create-product form. The form starts with one
//! empty row; rows can be added, removed, edited and reset to a single empty
//! row. When the product is created, each row becomes a variation whose
//! empty text fields are left out.
use vstd::prelude::*;

use crate::opt_str;

verus! {

/// One row of the form, as typed.
pub struct VariationInput {
    pub dims: String,
    pub pack: String,
    pub standard: String,
    pub price: String,
}

pub struct VariationInputView {
    pub dims: Seq<char>,
    pub pack: Seq<char>,
    pub standard: Seq<char>,
    pub price: Seq<char>,
}

impl View for VariationInput {
    type V = VariationInputView;

    open spec fn view(&self) -> VariationInputView {
        VariationInputView {
            dims: self.dims@,
            pack: self.pack@,
            standard: self.standard@,
            price: self.price@,
        }
    }
}

/// A row with nothing typed in.
pub open spec fn empty_row() -> VariationInputView {
    VariationInputView {
        dims: Seq::empty(),
        pack: Seq::empty(),
        standard: Seq::empty(),
        price: Seq::empty(),
    }
}

impl VariationInput {
    /// A row with nothing typed in.
    pub fn empty() -> (r: VariationInput)
        ensures
            r@ == empty_row(),
    {
        VariationInput {
            dims: String::new(),
            pack: String::new(),
            standard: String::new(),
            price: String::new(),
        }
    }
}

/// The variation rows of the form.
pub struct VariationRows {
    rows: Vec<VariationInput>,
}

impl View for VariationRows {
    type V = Seq<VariationInputView>;

    closed spec fn view(&self) -> Seq<VariationInputView> {
        self.rows@.map_values(|r: VariationInput| r@)
    }
}

/// Whether a row number from the form names an existing row.
pub open spec fn in_range(index: i32, len: nat) -> bool {
    0 <= index < len
}

/// A variation to create, from one row: the text fields, `None` when left
/// empty, and the price as typed.
pub struct VariationFields {
    pub dimensions: Option<String>,
    pub packaging: Option<String>,
    pub standard: Option<String>,
    pub price: String,
}

/// What an optional text field becomes.
pub open spec fn optional(s: Seq<char>, v: Option<String>) -> bool {
    match v {
        None => s.len() == 0,
        Some(t) => s.len() > 0 && t@ == s,
    }
}

impl VariationRows {
    /// The form's initial rows: one empty row.
    pub fn new() -> (r: VariationRows)
        ensures
            r@ == seq![empty_row()],
    {
        let mut rows: Vec<VariationInput> = Vec::new();
        rows.push(VariationInput::empty());
        let r = VariationRows { rows };
        assert(r@ =~= seq![empty_row()]);
        r
    }

    /// The rows.
    pub fn rows(&self) -> (r: &Vec<VariationInput>)
        ensures
            r@.map_values(|v: VariationInput| v@) == self@,
    {
        &self.rows
    }

    /// The number of rows.
    pub fn len(&self) -> (r: usize)
        ensures
            r == self@.len(),
    {
        self.rows.len()
    }

    /// Appends an empty row.
    pub fn add_row(&mut self)
        ensures
            final(self)@ == old(self)@.push(empty_row()),
    {
        let ghost before = self@;
        self.rows.push(VariationInput::empty());
        assert(self@ =~= before.push(empty_row()));
    }

    /// Removes row `index`; nothing happens when there is no such row.
    pub fn remove_row(&mut self, index: i32)
        ensures
            final(self)@ == if in_range(index, old(self)@.len()) {
                old(self)@.remove(index as int)
            } else {
                old(self)@
            },
    {
        let ghost before = self@;
        if index >= 0 && (index as usize) < self.rows.len() {
            self.rows.remove(index as usize);
            assert(self@ =~= before.remove(index as int));
        }
    }

    /// Replaces row `index` with the given fields; nothing happens when there
    /// is no such row.
    pub fn set_row(&mut self, index: i32, row: VariationInput)
        ensures
            final(self)@ == if in_range(index, old(self)@.len()) {
                old(self)@.update(index as int, row@)
            } else {
                old(self)@
            },
    {
        let ghost before = self@;
        let ghost new_row = row@;
        if index >= 0 && (index as usize) < self.rows.len() {
            self.rows.set(index as usize, row);
            assert(self@ =~= before.update(index as int, new_row));
        }
    }

    /// Resets the form to one empty row.
    pub fn clear(&mut self)
        ensures
            final(self)@ == seq![empty_row()],
    {
        *self = VariationRows::new();
    }

    /// The variations to create, one per row, in order.
    pub fn fields(&self) -> (r: Vec<VariationFields>)
        ensures
            r@.len() == self@.len(),
            forall|i: int|
                0 <= i < r@.len() ==> {
                    &&& optional(self@[i].dims, #[trigger] r@[i].dimensions)
                    &&& optional(self@[i].pack, r@[i].packaging)
                    &&& optional(self@[i].standard, r@[i].standard)
                    &&& r@[i].price@ == self@[i].price
                },
    {
        let n: usize = self.rows.len();
        let mut r: Vec<VariationFields> = Vec::new();
        let mut i: usize = 0;
        while i < n
            invariant
                i <= n == self.rows.len(),
                r@.len() == i,
                forall|j: int|
                    0 <= j < i ==> {
                        &&& optional(self@[j].dims, #[trigger] r@[j].dimensions)
                        &&& optional(self@[j].pack, r@[j].packaging)
                        &&& optional(self@[j].standard, r@[j].standard)
                        &&& r@[j].price@ == self@[j].price
                    },
            decreases n - i,
        {
            let row = &self.rows[i];
            r.push(
                VariationFields {
                    dimensions: opt_str(row.dims.as_str()),
                    packaging: opt_str(row.pack.as_str()),
                    standard: opt_str(row.standard.as_str()),
                    price: row.price.clone(),
                },
            );
            i = i + 1;
        }
        r
    }
}

/// Law: editing a row and then removing it leaves the same rows as removing
/// it straight away.
pub proof fn law_remove_after_edit(
    rows: Seq<VariationInputView>,
    index: i32,
    row: VariationInputView,
)
    requires
        in_range(index, rows.len()),
    ensures
        rows.update(index as int, row).remove(index as int) == rows.remove(index as int),
{
    assert(rows.update(index as int, row).remove(index as int) =~= rows.remove(index as int));
}

} // verus!
