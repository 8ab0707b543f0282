//! Writing the catalog into its TOML document.
//!
//! The document is edited, not rewritten: the sections `metadata`,
//! `gamepasses` and `products` are taken from it as they stand, the keys that
//! the catalog owns are set or removed in them and in the table of each
//! product, and they are put back. Every other key of the document, of
//! `metadata`, of the two product sections and of a product's table stays as
//! it was.

use crate::catalog::{EntryView, ProductTable, VCSProducts, VCSProductsView};
use crate::product::{Metadata, MetadataView, Product, ProductView};
use crate::text::serialize_regex_vec;
use toml_edit::{Array, Item, Table};
use vstd::prelude::*;

verus! {

/// `toml_edit::Table`, a table of a TOML document. Nothing is known of it
/// but what the functions below say of its items.
#[verifier::external_type_specification]
#[verifier::external_body]
pub struct ExTable(Table);

/// What a TOML item holds: a string, an integer, a boolean, an array of
/// strings, or a table with its own items. `Other` stands for any other
/// item.
pub enum TomlView {
    Text(Seq<char>),
    Integer(i64),
    Flag(bool),
    TextList(Seq<Seq<char>>),
    Section(Map<Seq<char>, TomlView>),
    Other,
}

/// The items that a table holds, by their keys: those that `Table::get`
/// finds in it.
pub uninterp spec fn table_items(t: Table) -> Map<Seq<char>, TomlView>;

/// No items.
pub open spec fn no_items() -> Map<Seq<char>, TomlView> {
    Map::empty()
}

/// Whether `key` holds a table.
pub open spec fn has_section(items: Map<Seq<char>, TomlView>, key: Seq<char>) -> bool {
    items.dom().contains(key) && items[key] is Section
}

/// The items of the table under `key`; none where there is no table under
/// that key.
pub open spec fn section_at(items: Map<Seq<char>, TomlView>, key: Seq<char>) -> Map<
    Seq<char>,
    TomlView,
> {
    if has_section(items, key) {
        items[key]->Section_0
    } else {
        no_items()
    }
}

/// The characters of each string of a list.
pub open spec fn texts_of(list: Seq<String>) -> Seq<Seq<char>> {
    list.map_values(|s: String| s@)
}

/// `Table::new`: a table without items.
#[verifier::external_body]
fn new_table() -> (out: Table)
    ensures
        table_items(out) == no_items(),
{
    Table::new()
}

/// `Table::get`: a copy of the table under `key`; nothing where the key is
/// missing or holds something else.
#[verifier::external_body]
fn child_table(table: &Table, key: &str) -> (out: Option<Table>)
    ensures
        out is Some <==> has_section(table_items(*table), key@),
        out matches Some(child) ==> table_items(child) == section_at(table_items(*table), key@),
{
    match table.get(key) {
        Some(Item::Table(child)) => Some(child.clone()),
        _ => None,
    }
}

fn section_or_empty(table: &Table, key: &str) -> (out: Table)
    ensures
        table_items(out) == section_at(table_items(*table), key@),
{
    match child_table(table, key) {
        Some(child) => child,
        None => new_table(),
    }
}

/// Assignment through `IndexMut` of `toml_edit::value` of a string: the key
/// holds the string afterwards, every other key what it held.
#[verifier::external_body]
fn set_text(table: &mut Table, key: &str, value: &str)
    ensures
        table_items(*final(table)) == table_items(*old(table)).insert(key@, TomlView::Text(value@)),
{
    table[key] = toml_edit::value(value);
}

/// Assignment through `IndexMut` of `toml_edit::value` of an integer.
#[verifier::external_body]
fn set_integer(table: &mut Table, key: &str, value: i64)
    ensures
        table_items(*final(table)) == table_items(*old(table)).insert(
            key@,
            TomlView::Integer(value),
        ),
{
    table[key] = toml_edit::value(value);
}

/// Assignment through `IndexMut` of `toml_edit::value` of a boolean.
#[verifier::external_body]
fn set_flag(table: &mut Table, key: &str, value: bool)
    ensures
        table_items(*final(table)) == table_items(*old(table)).insert(key@, TomlView::Flag(value)),
{
    table[key] = toml_edit::value(value);
}

/// Assignment through `IndexMut` of `toml_edit::value` of an array made of
/// strings.
#[verifier::external_body]
fn set_text_list(table: &mut Table, key: &str, values: &Vec<String>)
    ensures
        table_items(*final(table)) == table_items(*old(table)).insert(
            key@,
            TomlView::TextList(texts_of(values@)),
        ),
{
    table[key] = toml_edit::value(Array::from_iter(values.iter()));
}

/// Assignment through `IndexMut` of a table: the key holds the table
/// afterwards.
#[verifier::external_body]
fn set_section(table: &mut Table, key: &str, child: Table)
    ensures
        table_items(*final(table)) == table_items(*old(table)).insert(
            key@,
            TomlView::Section(table_items(child)),
        ),
{
    table[key] = Item::Table(child);
}

/// `Table::remove`: the key holds nothing afterwards.
#[verifier::external_body]
fn remove_key(table: &mut Table, key: &str)
    ensures
        table_items(*final(table)) == table_items(*old(table)).remove(key@),
{
    table.remove(key);
}

/// `items` with a string under `key`, or without the key where there is no
/// string.
pub open spec fn with_optional_text(
    items: Map<Seq<char>, TomlView>,
    key: Seq<char>,
    value: Option<Seq<char>>,
) -> Map<Seq<char>, TomlView> {
    match value {
        Some(text) => items.insert(key, TomlView::Text(text)),
        None => items.remove(key),
    }
}

/// `items` with `value` under `key`, or without the key where there is no
/// value.
pub open spec fn with_optional(
    items: Map<Seq<char>, TomlView>,
    key: Seq<char>,
    value: Option<TomlView>,
) -> Map<Seq<char>, TomlView> {
    match value {
        Some(v) => items.insert(key, v),
        None => items.remove(key),
    }
}

/// An integer item, where there is a number.
pub open spec fn optional_integer(value: Option<i64>) -> Option<TomlView> {
    match value {
        Some(n) => Some(TomlView::Integer(n)),
        None => None,
    }
}

/// A boolean item, where there is a flag.
pub open spec fn optional_flag(value: Option<bool>) -> Option<TomlView> {
    match value {
        Some(b) => Some(TomlView::Flag(b)),
        None => None,
    }
}

/// The id of a product as the integer that is written for it.
pub open spec fn written_id(id: Option<u64>) -> Option<i64> {
    match id {
        Some(id) => Some(id as i64),
        None => None,
    }
}

/// The discount of a product as the integer that is written for it.
pub open spec fn written_discount(discount: Option<u8>) -> Option<i64> {
    match discount {
        Some(d) => Some(d as i64),
        None => None,
    }
}

/// The items of a product's table after the product has been written to
/// it: `name`, `active` and `price` are set; `id`, `prefix`, `description`,
/// `discount` and `regional-pricing` are set where the product has them and
/// removed where it has not. Every other key stays as it was.
pub open spec fn product_items(items: Map<Seq<char>, TomlView>, p: ProductView) -> Map<
    Seq<char>,
    TomlView,
> {
    let with_id = with_optional(items, "id"@, optional_integer(written_id(p.id)));
    let with_prefix = with_optional_text(with_id, "prefix"@, p.prefix);
    let with_name = with_prefix.insert("name"@, TomlView::Text(p.name));
    let with_description = with_optional_text(with_name, "description"@, p.description);
    let with_active = with_description.insert("active"@, TomlView::Flag(p.active));
    let with_discount = with_optional(
        with_active,
        "discount"@,
        optional_integer(written_discount(p.discount)),
    );
    let with_price = with_discount.insert("price"@, TomlView::Integer(p.price));
    with_optional(with_price, "regional-pricing"@, optional_flag(p.regional_pricing))
}

/// The items of `metadata` after a save: the universe id and the name
/// filters are set, the discount prefix and the script file are set where
/// the catalog has them and removed where it has not.
pub open spec fn metadata_items(
    items: Map<Seq<char>, TomlView>,
    m: MetadataView,
) -> Map<Seq<char>, TomlView> {
    with_optional_text(
        with_optional_text(items, "discount-prefix"@, m.discount_prefix).insert(
            "universe-id"@,
            TomlView::Integer(m.universe_id as i64),
        ),
        "luau-file"@,
        m.luau_file,
    ).insert("name-filters"@, TomlView::TextList(m.name_filters))
}

/// The items of a product section after a save: each product of the table
/// is written to the table under its key, first to last.
pub open spec fn section_items(
    items: Map<Seq<char>, TomlView>,
    t: Seq<EntryView>,
) -> Map<Seq<char>, TomlView>
    decreases t.len(),
{
    if t.len() == 0 {
        items
    } else {
        let before = section_items(items, t.drop_last());
        before.insert(
            t.last().key,
            TomlView::Section(product_items(section_at(before, t.last().key), t.last().product)),
        )
    }
}

/// The items of the document after a save.
pub open spec fn saved_items(
    root: Map<Seq<char>, TomlView>,
    c: VCSProductsView,
) -> Map<Seq<char>, TomlView> {
    root.insert(
        "metadata"@,
        TomlView::Section(metadata_items(section_at(root, "metadata"@), c.metadata)),
    ).insert(
        "gamepasses"@,
        TomlView::Section(section_items(section_at(root, "gamepasses"@), c.gamepasses)),
    ).insert(
        "products"@,
        TomlView::Section(section_items(section_at(root, "products"@), c.products)),
    )
}

fn set_optional_text(table: &mut Table, key: &str, value: &Option<String>)
    ensures
        table_items(*final(table)) == with_optional_text(
            table_items(*old(table)),
            key@,
            crate::product::text_of(*value),
        ),
{
    match value {
        Some(text) => set_text(table, key, text.as_str()),
        None => remove_key(table, key),
    }
}

fn set_optional_integer(table: &mut Table, key: &str, value: Option<i64>)
    ensures
        table_items(*final(table)) == with_optional(
            table_items(*old(table)),
            key@,
            optional_integer(value),
        ),
{
    match value {
        Some(n) => set_integer(table, key, n),
        None => remove_key(table, key),
    }
}

fn set_optional_flag(table: &mut Table, key: &str, value: Option<bool>)
    ensures
        table_items(*final(table)) == with_optional(
            table_items(*old(table)),
            key@,
            optional_flag(value),
        ),
{
    match value {
        Some(b) => set_flag(table, key, b),
        None => remove_key(table, key),
    }
}

impl Product {
    /// Writes this product to its table.
    pub fn write_to(&self, table: &mut Table)
        ensures
            table_items(*final(table)) == product_items(table_items(*old(table)), self@),
    {
        set_optional_integer(
            table,
            "id",
            match self.id {
                Some(id) => Some(id as i64),
                None => None,
            },
        );
        set_optional_text(table, "prefix", &self.prefix);
        set_text(table, "name", self.name.as_str());
        set_optional_text(table, "description", &self.description);
        set_flag(table, "active", self.active);
        set_optional_integer(
            table,
            "discount",
            match self.discount {
                Some(d) => Some(d as i64),
                None => None,
            },
        );
        set_integer(table, "price", self.price);
        set_optional_flag(table, "regional-pricing", self.regional_pricing);
    }

    /// The table that this product is written as where there was none.
    pub fn to_table(&self) -> (out: Table)
        ensures
            table_items(out) == product_items(no_items(), self@),
    {
        let mut table = new_table();
        self.write_to(&mut table);
        table
    }
}

fn write_metadata(table: &mut Table, metadata: &Metadata)
    ensures
        table_items(*final(table)) == metadata_items(table_items(*old(table)), metadata@),
{
    set_optional_text(table, "discount-prefix", &metadata.discount_prefix);
    set_integer(table, "universe-id", metadata.universe_id as i64);
    set_optional_text(table, "luau-file", &metadata.luau_file);
    let filters = match serialize_regex_vec(&metadata.name_filters) {
        Some(list) => list,
        None => Vec::new(),
    };
    proof {
        assert(texts_of(filters@) =~= metadata@.name_filters);
    }
    set_text_list(table, "name-filters", &filters);
}

fn write_section(table: &mut Table, products: &ProductTable)
    ensures
        table_items(*final(table)) == section_items(table_items(*old(table)), products@),
{
    let ghost start = table_items(*table);
    let ghost t = products@;
    let mut i: usize = 0;
    proof {
        assert(t.take(0) =~= Seq::<EntryView>::empty());
    }
    while i < products.len()
        invariant
            i <= t.len(),
            t == products@,
            table_items(*table) == section_items(start, t.take(i as int)),
        decreases t.len() - i,
    {
        let entry = products.entry(i);
        proof {
            assert(t.take(i + 1).drop_last() =~= t.take(i as int));
            assert(t.take(i + 1).last() == entry@);
        }
        let mut child = section_or_empty(table, entry.key.as_str());
        entry.product.write_to(&mut child);
        set_section(table, entry.key.as_str(), child);
        i += 1;
    }
    proof {
        assert(t.take(t.len() as int) =~= t);
    }
}

impl VCSProducts {
    /// Writes the catalog into the root table of its document.
    pub fn save_products(&self, root: &mut Table)
        ensures
            table_items(*final(root)) == saved_items(table_items(*old(root)), self@),
    {
        let mut metadata = section_or_empty(root, "metadata");
        let mut gamepasses = section_or_empty(root, "gamepasses");
        let mut products = section_or_empty(root, "products");
        write_metadata(&mut metadata, &self.metadata);
        write_section(&mut gamepasses, &self.gamepasses);
        write_section(&mut products, &self.products);
        set_section(root, "metadata", metadata);
        set_section(root, "gamepasses", gamepasses);
        set_section(root, "products", products);
    }
}

/// A save leaves every key of the document but `metadata`, `gamepasses` and
/// `products` as it was; in `metadata` it leaves every key but the four it
/// owns; in a product section it leaves every key that is not the key of a
/// product of the catalog.
pub proof fn lemma_save_keeps_other_keys(root: Map<Seq<char>, TomlView>, c: VCSProductsView)
    ensures
        forall|k: Seq<char>|
            k != "metadata"@ && k != "gamepasses"@ && k != "products"@ ==> (saved_items(
                root,
                c,
            ).dom().contains(k) <==> root.dom().contains(k)) && (root.dom().contains(k)
                ==> #[trigger] saved_items(root, c)[k] == root[k]),
        forall|items: Map<Seq<char>, TomlView>, k: Seq<char>|
            k != "discount-prefix"@ && k != "universe-id"@ && k != "luau-file"@ && k
                != "name-filters"@ ==> (metadata_items(items, c.metadata).dom().contains(k)
                <==> items.dom().contains(k)) && (items.dom().contains(k)
                ==> #[trigger] metadata_items(items, c.metadata)[k] == items[k]),
{
    reveal_strlit("metadata");
    reveal_strlit("gamepasses");
    reveal_strlit("products");
}

/// Writing a product leaves every key of its table but the eight it owns
/// as it was.
pub proof fn lemma_product_items_keeps(items: Map<Seq<char>, TomlView>, p: ProductView, k: Seq<char>)
    requires
        k != "id"@,
        k != "prefix"@,
        k != "name"@,
        k != "description"@,
        k != "active"@,
        k != "discount"@,
        k != "price"@,
        k != "regional-pricing"@,
    ensures
        product_items(items, p).dom().contains(k) <==> items.dom().contains(k),
        items.dom().contains(k) ==> product_items(items, p)[k] == items[k],
{
}

/// A save of a product section leaves every key that is not the key of a
/// product of the table as it was, and holds a table under the key of every
/// product of the table.
pub proof fn lemma_section_items(items: Map<Seq<char>, TomlView>, t: Seq<EntryView>, k: Seq<char>)
    ensures
        (forall|i: int| 0 <= i < t.len() ==> (#[trigger] t[i]).key != k) ==> (section_items(
            items,
            t,
        ).dom().contains(k) <==> items.dom().contains(k)) && (items.dom().contains(k)
            ==> section_items(items, t)[k] == items[k]),
        (exists|i: int| 0 <= i < t.len() && (#[trigger] t[i]).key == k) ==> has_section(
            section_items(items, t),
            k,
        ),
    decreases t.len(),
{
    if t.len() > 0 {
        let rest = t.drop_last();
        lemma_section_items(items, rest, k);
        if forall|i: int| 0 <= i < t.len() ==> (#[trigger] t[i]).key != k {
            assert forall|i: int| 0 <= i < rest.len() implies (#[trigger] rest[i]).key != k by {
                assert(rest[i] == t[i]);
            }
            assert(t[t.len() - 1].key != k);
        }
        if exists|i: int| 0 <= i < t.len() && (#[trigger] t[i]).key == k {
            let i = choose|i: int| 0 <= i < t.len() && (#[trigger] t[i]).key == k;
            if i < t.len() - 1 {
                assert(rest[i] == t[i]);
            }
        }
    }
}

} // verus!
