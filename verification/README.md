# warehouse

The verified core of a warehouse/catalog client. The library (`src/`) holds
what the client decides and computes, each function with a contract proved by
Verus:

- `cart`: the order cart (one line per variation; add, remove, set quantity,
  clear, order lines) and the laws relating its operations;
- `variation_rows`: the rows of the create-product form;
- `sync`: picking the `data:` payloads out of the product-change event stream;
- `api`, `auth`: endpoint URLs, the judgement of reply statuses, the login
  and start-up session decisions;
- `images`: the image cache paths and the WebP-to-PNG conversion;
- `catalog`, `db`: packaging text for prices per unit, optional columns, and
  grouping stored variations by product;
- `text`, `seqs`: character-level helpers and search lemmas.

`app/` is a thin command-line program around it: HTTP (reqwest), SQLite
(sqlx), files, JSON (serde) and the floating-point price arithmetic.
