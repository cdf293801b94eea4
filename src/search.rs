use vstd::prelude::*;

use crate::decimal::{decimal_text, same_at_four_places, Decimal};
use crate::error::{ApiErr, ApiErrorType};
use crate::numeric::{
    decimal_of_text, dot_index, dropped_digits, exponent_text, frac_digits, is_exp_mark, kept_value,
    lemma_exp_index, mantissa, i64_of_text, int_digits, lemma_dot_index, parse_decimal,
    parse_i64, sign_len,
};
use crate::text::{all_digits, digits_value, int_text, is_digit, push_int};
use std::collections::HashMap;

verus! {

/// A typed predicate value.
#[derive(Debug)]
pub enum ItemValue {
    /// The field's presence alone is the predicate.
    Empty,
    Bool(bool),
    Int(i64),
    Float(Decimal),
    String(String),
    CmpFloat { eq: bool, bigger: bool, value: Decimal },
    CmpInt { eq: bool, bigger: bool, value: i64 },
}

/// A field name paired with its value.
#[derive(Debug)]
pub struct ItemData {
    pub name: String,
    pub value: ItemValue,
}

/// A single predicate, excluded when `not` is set.
#[derive(Debug)]
pub struct Item {
    pub not: bool,
    pub data: ItemData,
}

/// Children joined with `or` (any may hold) or with `and` (all must hold).
///
/// An empty combinator is a valid degenerate node: an empty `and` holds
/// vacuously and an empty `or` never holds. It renders as `and:()` or `or:()`.
#[derive(Debug)]
pub struct Array {
    pub or: bool,
    pub items: Vec<ItemOrArray>,
}

/// A node of the predicate tree.
#[derive(Debug)]
pub enum ItemOrArray {
    Item(Item),
    Array(Array),
}

/// A search request: ordering, paging and the predicate tree.
#[derive(Debug, PartialEq, Eq)]
pub struct SearchRequest {
    pub order: Order,
    pub desc: bool,
    pub limit: u32,
    pub page: u32,
    pub query: ItemOrArray,
}

/// How search results are ordered.
#[derive(Clone, Copy, Debug, PartialEq, Eq, Structural)]
pub enum Order {
    Created,
    Alphabetical,
    Updated,
    LastRead,
    Popularity,
    Random,
}

/// Publication status of a manga.
#[derive(Clone, Copy, Debug, PartialEq, Eq, Structural)]
pub enum Status {
    Dropped,
    Hiatus,
    Ongoing,
    Completed,
    Upcoming,
}

/// The stored code of a status.
pub open spec fn status_code(s: Status) -> u64 {
    match s {
        Status::Dropped => 0,
        Status::Hiatus => 1,
        Status::Ongoing => 2,
        Status::Completed => 3,
        Status::Upcoming => 4,
    }
}

impl Status {
    /// The status stored under `value`; codes above 4 are an internal error.
    pub fn from_code(value: u64) -> (r: Result<Status, ApiErr>)
        ensures
            value <= 4 <==> r is Ok,
            r matches Ok(s) ==> status_code(s) == value,
            r matches Err(e) ==> (e.err_type == ApiErrorType::InternalError && e.cause is None
                && (e.message matches Some(m) && m@ == "Couldnt find manga status"@)),
    {
        match value {
            0 => Ok(Status::Dropped),
            1 => Ok(Status::Hiatus),
            2 => Ok(Status::Ongoing),
            3 => Ok(Status::Completed),
            4 => Ok(Status::Upcoming),
            _ => Err(
                ApiErr {
                    message: Some(String::from_str("Couldnt find manga status")),
                    cause: None,
                    err_type: ApiErrorType::InternalError,
                },
            ),
        }
    }

    /// The code under which the status is stored.
    pub fn code(self) -> (r: u64)
        ensures
            r == status_code(self),
    {
        match self {
            Status::Dropped => 0,
            Status::Hiatus => 1,
            Status::Ongoing => 2,
            Status::Completed => 3,
            Status::Upcoming => 4,
        }
    }
}

impl TryFrom<u64> for Status {
    type Error = ApiErr;

    fn try_from(value: u64) -> (r: Result<Status, ApiErr>)
        ensures
            value <= 4 <==> r is Ok,
            r matches Ok(s) ==> status_code(s) == value,
            r matches Err(e) ==> (e.err_type == ApiErrorType::InternalError && e.cause is None
                && (e.message matches Some(m) && m@ == "Couldnt find manga status"@)),
    {
        Status::from_code(value)
    }
}

/// The error carries a `String`, which no spec value can name, so the
/// trait-level specification is switched off; `try_from` states its own
/// contract instead.
impl vstd::std_specs::convert::TryFromSpecImpl<u64> for Status {
    open spec fn obeys_try_from_spec() -> bool {
        false
    }

    open spec fn try_from_spec(v: u64) -> Result<Status, ApiErr> {
        Ok(Status::Dropped)
    }
}

impl From<Status> for u64 {
    fn from(value: Status) -> (r: u64) {
        value.code()
    }
}

impl vstd::std_specs::convert::FromSpecImpl<Status> for u64 {
    open spec fn obeys_from_spec() -> bool {
        true
    }

    open spec fn from_spec(v: Status) -> u64 {
        status_code(v)
    }
}

/// What a list of search results shows of each entry.
pub trait DisplaySearch {
    fn image_number(&self) -> u32;

    fn internal(&self) -> bool;

    fn id_url(&self) -> &String;

    fn ext(&self) -> String;

    fn status(&self) -> Status;

    fn titles(&self) -> HashMap<String, Vec<String>>;

    fn cover(&self) -> &str;
}

/// A manga found by the service's own search.
#[derive(Debug)]
pub struct SearchResponse {
    pub manga_id: String,
    pub titles: HashMap<String, Vec<String>>,
    pub tags: Vec<String>,
    pub status: Status,
    pub ext: String,
    pub number: u32,
}

impl DisplaySearch for SearchResponse {
    fn image_number(&self) -> u32 {
        self.number
    }

    fn internal(&self) -> bool {
        true
    }

    fn id_url(&self) -> &String {
        &self.manga_id
    }

    fn ext(&self) -> String {
        self.ext.clone()
    }

    fn status(&self) -> Status {
        self.status
    }

    fn titles(&self) -> HashMap<String, Vec<String>> {
        self.titles.clone()
    }

    fn cover(&self) -> &str {
        ""
    }
}

// ---------------------------------------------------------------- rendering

/// `>` for a lower bound, `<` for an upper bound, then `=` when inclusive.
pub open spec fn cmp_prefix(eq: bool, bigger: bool) -> Seq<char> {
    (if bigger {
        seq!['>']
    } else {
        seq!['<']
    }) + (if eq {
        seq!['=']
    } else {
        Seq::empty()
    })
}

pub open spec fn bool_text(b: bool) -> Seq<char> {
    if b {
        seq!['t', 'r', 'u', 'e']
    } else {
        seq!['f', 'a', 'l', 's', 'e']
    }
}

/// The canonical text of a value.
pub open spec fn value_text(v: ItemValue) -> Seq<char> {
    match v {
        ItemValue::Empty => Seq::empty(),
        ItemValue::Bool(b) => bool_text(b),
        ItemValue::Int(i) => int_text(i as int),
        ItemValue::Float(d) => decimal_text(d),
        ItemValue::String(s) => seq!['"'] + s@ + seq!['"'],
        ItemValue::CmpFloat { eq, bigger, value } => cmp_prefix(eq, bigger) + decimal_text(value),
        ItemValue::CmpInt { eq, bigger, value } => cmp_prefix(eq, bigger) + int_text(value as int),
    }
}

/// `name:value`, or `name:!value` when negated.
pub open spec fn item_text(i: Item) -> Seq<char> {
    i.data.name@ + seq![':'] + (if i.not {
        seq!['!']
    } else {
        Seq::empty()
    }) + value_text(i.data.value)
}

pub open spec fn array_prefix(or: bool) -> Seq<char> {
    if or {
        seq!['o', 'r', ':', '(']
    } else {
        seq!['a', 'n', 'd', ':', '(']
    }
}

/// The canonical text of a tree node.
pub open spec fn tree_text(t: ItemOrArray) -> Seq<char>
    decreases t,
{
    match t {
        ItemOrArray::Item(i) => item_text(i),
        ItemOrArray::Array(a) => array_prefix(a.or) + list_text(a.items@) + seq![')'],
    }
}

/// The texts of the nodes, separated by single spaces.
pub open spec fn list_text(s: Seq<ItemOrArray>) -> Seq<char>
    decreases s,
{
    if s.len() == 0 {
        Seq::empty()
    } else if s.len() == 1 {
        tree_text(s[0])
    } else {
        list_text(s.drop_last()) + seq![' '] + tree_text(s.last())
    }
}

pub open spec fn array_text(a: Array) -> Seq<char> {
    array_prefix(a.or) + list_text(a.items@) + seq![')']
}

fn push_cmp_prefix(out: &mut String, eq: bool, bigger: bool)
    ensures
        final(out)@ == old(out)@ + cmp_prefix(eq, bigger),
{
    proof {
        reveal_strlit(">");
        reveal_strlit("<");
        reveal_strlit("=");
    }
    if bigger {
        out.append(">");
    } else {
        out.append("<");
    }
    if eq {
        out.append("=");
    }
    proof {
        assert(final(out)@ =~= old(out)@ + cmp_prefix(eq, bigger));
    }
}

impl ItemValue {
    /// Appends the canonical text of the value.
    pub fn push_text(&self, out: &mut String)
        ensures
            final(out)@ == old(out)@ + value_text(*self),
    {
        match self {
            ItemValue::Empty => {
                proof {
                    assert(final(out)@ =~= old(out)@ + value_text(*self));
                }
            },
            ItemValue::Bool(b) => {
                proof {
                    reveal_strlit("true");
                    reveal_strlit("false");
                }
                if *b {
                    out.append("true");
                } else {
                    out.append("false");
                }
            },
            ItemValue::Int(i) => {
                push_int(out, *i);
            },
            ItemValue::Float(d) => {
                d.push_text(out);
            },
            ItemValue::String(s) => {
                proof {
                    reveal_strlit("\"");
                }
                out.append("\"");
                out.append(s.as_str());
                out.append("\"");
                proof {
                    assert(final(out)@ =~= old(out)@ + value_text(*self));
                }
            },
            ItemValue::CmpFloat { eq, bigger, value } => {
                push_cmp_prefix(out, *eq, *bigger);
                value.push_text(out);
                proof {
                    assert(final(out)@ =~= old(out)@ + value_text(*self));
                }
            },
            ItemValue::CmpInt { eq, bigger, value } => {
                push_cmp_prefix(out, *eq, *bigger);
                push_int(out, *value);
                proof {
                    assert(final(out)@ =~= old(out)@ + value_text(*self));
                }
            },
        }
    }

    /// The canonical text of the value.
    pub fn to_string(&self) -> (r: String)
        ensures
            r@ == value_text(*self),
    {
        let mut out = String::new();
        self.push_text(&mut out);
        proof {
            assert(out@ =~= value_text(*self));
        }
        out
    }
}

impl Item {
    pub fn new(data: ItemData) -> (r: Item)
        ensures
            r == (Item { not: false, data }),
    {
        Item { not: false, data }
    }

    pub fn new_exclude(data: ItemData) -> (r: Item)
        ensures
            r == (Item { not: true, data }),
    {
        Item { not: true, data }
    }

    /// Appends `name:value`, or `name:!value` when negated.
    pub fn push_text(&self, out: &mut String)
        ensures
            final(out)@ == old(out)@ + item_text(*self),
    {
        proof {
            reveal_strlit(":");
            reveal_strlit("!");
        }
        out.append(self.data.name.as_str());
        out.append(":");
        if self.not {
            out.append("!");
        }
        self.data.value.push_text(out);
        proof {
            assert(final(out)@ =~= old(out)@ + item_text(*self));
        }
    }

    /// The canonical text of the item.
    pub fn to_string(&self) -> (r: String)
        ensures
            r@ == item_text(*self),
    {
        let mut out = String::new();
        self.push_text(&mut out);
        proof {
            assert(out@ =~= item_text(*self));
        }
        out
    }
}

impl ItemData {
    /// A field that is a predicate by its presence alone.
    pub fn enum_(name: &str) -> (r: ItemData)
        ensures
            r.name@ == name@,
            r.value == ItemValue::Empty,
    {
        ItemData { name: String::from_str(name), value: ItemValue::Empty }
    }
}

impl ItemOrArray {
    /// Appends the canonical text of the node.
    pub fn push_text(&self, out: &mut String)
        ensures
            final(out)@ == old(out)@ + tree_text(*self),
        decreases *self, 1nat,
    {
        match self {
            ItemOrArray::Item(i) => i.push_text(out),
            ItemOrArray::Array(a) => {
                a.push_text(out);
            },
        }
    }

    /// The canonical text of the node.
    pub fn to_string(&self) -> (r: String)
        ensures
            r@ == tree_text(*self),
    {
        let mut out = String::new();
        self.push_text(&mut out);
        proof {
            assert(out@ =~= tree_text(*self));
        }
        out
    }
}

impl Array {
    /// Appends `and:(..)` or `or:(..)` with the children separated by spaces.
    pub fn push_text(&self, out: &mut String)
        ensures
            final(out)@ == old(out)@ + array_text(*self),
        decreases *self, 0nat,
    {
        let ghost start = out@;
        proof {
            reveal_strlit("or:(");
            reveal_strlit("and:(");
            reveal_strlit(" ");
            reveal_strlit(")");
        }
        if self.or {
            out.append("or:(");
        } else {
            out.append("and:(");
        }
        let n = self.items.len();
        let mut i: usize = 0;
        while i < n
            invariant
                n == self.items@.len(),
                i <= n,
                out@ == start + array_prefix(self.or) + list_text(self.items@.subrange(0, i as int)),
            decreases n - i,
        {
            let ghost before = out@;
            proof {
                reveal_strlit(" ");
            }
            if i > 0 {
                out.append(" ");
            }
            let ghost mid = out@;
            proof {
                assert(decreases_to!(*self => self.items));
            }
            self.items[i].push_text(out);
            proof {
                let s = self.items@.subrange(0, i + 1);
                assert(s.drop_last() =~= self.items@.subrange(0, i as int));
                assert(s.last() == self.items@[i as int]);
                if i == 0 {
                    assert(list_text(s) == tree_text(s[0]));
                    assert(list_text(self.items@.subrange(0, 0)) =~= Seq::<char>::empty());
                } else {
                    assert(list_text(s) == list_text(s.drop_last()) + seq![' '] + tree_text(s.last()));
                }
                assert(out@ =~= start + array_prefix(self.or) + list_text(s));
            }
            i = i + 1;
        }
        out.append(")");
        proof {
            assert(self.items@.subrange(0, n as int) =~= self.items@);
            assert(out@ =~= start + array_text(*self));
        }
    }

    /// The canonical text of the combinator.
    pub fn to_string(&self) -> (r: String)
        ensures
            r@ == array_text(*self),
    {
        let mut out = String::new();
        self.push_text(&mut out);
        proof {
            assert(out@ =~= array_text(*self));
        }
        out
    }
}

// ---------------------------------------------------------------- equality

/// Equality of values: same variant, and then equal payloads, where
/// fractional numbers count as equal when they agree at four decimal places.
pub open spec fn value_eq(a: ItemValue, b: ItemValue) -> bool {
    match (a, b) {
        (ItemValue::Empty, ItemValue::Empty) => true,
        (ItemValue::Bool(x), ItemValue::Bool(y)) => x == y,
        (ItemValue::Int(x), ItemValue::Int(y)) => x == y,
        (ItemValue::Float(x), ItemValue::Float(y)) => same_at_four_places(x, y),
        (ItemValue::String(x), ItemValue::String(y)) => x@ == y@,
        (
            ItemValue::CmpFloat { eq: e1, bigger: b1, value: v1 },
            ItemValue::CmpFloat { eq: e2, bigger: b2, value: v2 },
        ) => e1 == e2 && b1 == b2 && same_at_four_places(v1, v2),
        (
            ItemValue::CmpInt { eq: e1, bigger: b1, value: v1 },
            ItemValue::CmpInt { eq: e2, bigger: b2, value: v2 },
        ) => e1 == e2 && b1 == b2 && v1 == v2,
        _ => false,
    }
}

/// Which variant a value is.
pub open spec fn variant(v: ItemValue) -> nat {
    match v {
        ItemValue::Empty => 0,
        ItemValue::Bool(_) => 1,
        ItemValue::Int(_) => 2,
        ItemValue::Float(_) => 3,
        ItemValue::String(_) => 4,
        ItemValue::CmpFloat { .. } => 5,
        ItemValue::CmpInt { .. } => 6,
    }
}

impl PartialEq for ItemValue {
    fn eq(&self, other: &ItemValue) -> (r: bool)
        ensures
            r == value_eq(*self, *other),
    {
        match (self, other) {
            (ItemValue::Empty, ItemValue::Empty) => true,
            (ItemValue::Bool(x), ItemValue::Bool(y)) => *x == *y,
            (ItemValue::Int(x), ItemValue::Int(y)) => *x == *y,
            (ItemValue::Float(x), ItemValue::Float(y)) => x.same_at_four_places(y),
            (ItemValue::String(x), ItemValue::String(y)) => *x == *y,
            (
                ItemValue::CmpFloat { eq: e1, bigger: b1, value: v1 },
                ItemValue::CmpFloat { eq: e2, bigger: b2, value: v2 },
            ) => *e1 == *e2 && *b1 == *b2 && v1.same_at_four_places(v2),
            (
                ItemValue::CmpInt { eq: e1, bigger: b1, value: v1 },
                ItemValue::CmpInt { eq: e2, bigger: b2, value: v2 },
            ) => *e1 == *e2 && *b1 == *b2 && *v1 == *v2,
            _ => false,
        }
    }
}

impl vstd::std_specs::cmp::PartialEqSpecImpl for ItemValue {
    open spec fn obeys_eq_spec() -> bool {
        true
    }

    open spec fn eq_spec(&self, other: &ItemValue) -> bool {
        value_eq(*self, *other)
    }
}

impl Eq for ItemValue {}

pub open spec fn data_eq(a: ItemData, b: ItemData) -> bool {
    a.name@ == b.name@ && value_eq(a.value, b.value)
}

pub open spec fn item_eq(a: Item, b: Item) -> bool {
    a.not == b.not && data_eq(a.data, b.data)
}

/// Equality of trees: same shape, same combinators, and equal items.
pub open spec fn tree_eq(a: ItemOrArray, b: ItemOrArray) -> bool
    decreases a,
{
    match (a, b) {
        (ItemOrArray::Item(x), ItemOrArray::Item(y)) => item_eq(x, y),
        (ItemOrArray::Array(x), ItemOrArray::Array(y)) => x.or == y.or && list_eq(x.items@, y.items@),
        _ => false,
    }
}

/// Equality of two lists of nodes, position by position.
pub open spec fn list_eq(s: Seq<ItemOrArray>, t: Seq<ItemOrArray>) -> bool
    decreases s,
{
    s.len() == t.len() && (s.len() == 0 || (list_eq(s.drop_last(), t.drop_last()) && tree_eq(
        s.last(),
        t.last(),
    )))
}

pub open spec fn array_eq(a: Array, b: Array) -> bool {
    a.or == b.or && list_eq(a.items@, b.items@)
}

impl PartialEq for ItemData {
    fn eq(&self, other: &ItemData) -> (r: bool)
        ensures
            r == data_eq(*self, *other),
    {
        self.name == other.name && self.value == other.value
    }
}

impl vstd::std_specs::cmp::PartialEqSpecImpl for ItemData {
    open spec fn obeys_eq_spec() -> bool {
        true
    }

    open spec fn eq_spec(&self, other: &ItemData) -> bool {
        data_eq(*self, *other)
    }
}

impl Eq for ItemData {}

impl PartialEq for Item {
    fn eq(&self, other: &Item) -> (r: bool)
        ensures
            r == item_eq(*self, *other),
    {
        self.not == other.not && self.data == other.data
    }
}

impl vstd::std_specs::cmp::PartialEqSpecImpl for Item {
    open spec fn obeys_eq_spec() -> bool {
        true
    }

    open spec fn eq_spec(&self, other: &Item) -> bool {
        item_eq(*self, *other)
    }
}

impl Eq for Item {}

fn tree_equal(a: &ItemOrArray, b: &ItemOrArray) -> (r: bool)
    ensures
        r == tree_eq(*a, *b),
    decreases *a, 1nat,
{
    match (a, b) {
        (ItemOrArray::Item(x), ItemOrArray::Item(y)) => x == y,
        (ItemOrArray::Array(x), ItemOrArray::Array(y)) => array_equal(x, y),
        _ => false,
    }
}

fn array_equal(a: &Array, b: &Array) -> (r: bool)
    ensures
        r == array_eq(*a, *b),
    decreases *a, 0nat,
{
    if a.or != b.or || a.items.len() != b.items.len() {
        return false;
    }
    let n = a.items.len();
    let mut i: usize = 0;
    while i < n
        invariant
            n == a.items@.len(),
            n == b.items@.len(),
            i <= n,
            list_eq(a.items@.subrange(0, i as int), b.items@.subrange(0, i as int)),
        decreases n - i,
    {
        proof {
            assert(decreases_to!(*a => a.items));
        }
        let same = tree_equal(&a.items[i], &b.items[i]);
        proof {
            let s = a.items@.subrange(0, i + 1);
            let t = b.items@.subrange(0, i + 1);
            assert(s.drop_last() =~= a.items@.subrange(0, i as int));
            assert(t.drop_last() =~= b.items@.subrange(0, i as int));
            assert(s.last() == a.items@[i as int]);
            assert(t.last() == b.items@[i as int]);
        }
        if !same {
            proof {
                if list_eq(a.items@, b.items@) {
                    lemma_list_eq_prefix(a.items@, b.items@, i + 1);
                }
            }
            return false;
        }
        i = i + 1;
    }
    proof {
        assert(a.items@.subrange(0, n as int) =~= a.items@);
        assert(b.items@.subrange(0, n as int) =~= b.items@);
    }
    true
}

/// Equal lists have equal prefixes.
proof fn lemma_list_eq_prefix(s: Seq<ItemOrArray>, t: Seq<ItemOrArray>, k: int)
    requires
        0 <= k <= s.len(),
        list_eq(s, t),
    ensures
        list_eq(s.subrange(0, k), t.subrange(0, k)),
    decreases s.len(),
{
    if k == s.len() {
        assert(s.subrange(0, k) =~= s);
        assert(t.subrange(0, k) =~= t);
    } else {
        lemma_list_eq_prefix(s.drop_last(), t.drop_last(), k);
        assert(s.drop_last().subrange(0, k) =~= s.subrange(0, k));
        assert(t.drop_last().subrange(0, k) =~= t.subrange(0, k));
    }
}

impl PartialEq for ItemOrArray {
    fn eq(&self, other: &ItemOrArray) -> (r: bool)
        ensures
            r == tree_eq(*self, *other),
    {
        tree_equal(self, other)
    }
}

impl vstd::std_specs::cmp::PartialEqSpecImpl for ItemOrArray {
    open spec fn obeys_eq_spec() -> bool {
        true
    }

    open spec fn eq_spec(&self, other: &ItemOrArray) -> bool {
        tree_eq(*self, *other)
    }
}

impl Eq for ItemOrArray {}

impl PartialEq for Array {
    fn eq(&self, other: &Array) -> (r: bool)
        ensures
            r == array_eq(*self, *other),
    {
        array_equal(self, other)
    }
}

impl vstd::std_specs::cmp::PartialEqSpecImpl for Array {
    open spec fn obeys_eq_spec() -> bool {
        true
    }

    open spec fn eq_spec(&self, other: &Array) -> bool {
        array_eq(*self, *other)
    }
}

impl Eq for Array {}

/// Value equality is an equivalence relation: every value equals itself, the
/// order of the two sides does not matter, and equality carries over through
/// a common middle value. Values of different variants are never equal.
pub proof fn lemma_value_eq_equivalence(a: ItemValue, b: ItemValue, c: ItemValue)
    ensures
        value_eq(a, a),
        value_eq(a, b) == value_eq(b, a),
        value_eq(a, b) && value_eq(b, c) ==> value_eq(a, c),
        variant(a) != variant(b) ==> !value_eq(a, b),
{
}

/// Tree equality is an equivalence relation as well: reflexive, symmetric and
/// transitive, with values compared as above.
pub proof fn lemma_tree_eq_equivalence(a: ItemOrArray, b: ItemOrArray, c: ItemOrArray)
    ensures
        tree_eq(a, a),
        tree_eq(a, b) == tree_eq(b, a),
        tree_eq(a, b) && tree_eq(b, c) ==> tree_eq(a, c),
    decreases a, 1nat,
{
    match a {
        ItemOrArray::Item(x) => {
            lemma_value_eq_equivalence(x.data.value, x.data.value, x.data.value);
            if let ItemOrArray::Item(y) = b {
                let z = match c {
                    ItemOrArray::Item(z) => z.data.value,
                    _ => y.data.value,
                };
                lemma_value_eq_equivalence(x.data.value, y.data.value, z);
            }
        },
        ItemOrArray::Array(x) => {
            let t = match b {
                ItemOrArray::Array(y) => y.items@,
                _ => x.items@,
            };
            let u = match c {
                ItemOrArray::Array(z) => z.items@,
                _ => t,
            };
            assert(decreases_to!(x => x.items));
            lemma_list_eq_equivalence(x.items@, t, u);
        },
    }
}

/// List equality inherits reflexivity, symmetry and transitivity from tree
/// equality.
pub proof fn lemma_list_eq_equivalence(s: Seq<ItemOrArray>, t: Seq<ItemOrArray>, u: Seq<ItemOrArray>)
    ensures
        list_eq(s, s),
        list_eq(s, t) == list_eq(t, s),
        list_eq(s, t) && list_eq(t, u) ==> list_eq(s, u),
    decreases s, 0nat,
{
    if s.len() > 0 {
        let t2 = if t.len() == s.len() {
            t.drop_last()
        } else {
            s.drop_last()
        };
        let u2 = if u.len() == s.len() {
            u.drop_last()
        } else {
            t2
        };
        lemma_list_eq_equivalence(s.drop_last(), t2, u2);
        let tl = if t.len() == s.len() {
            t.last()
        } else {
            s.last()
        };
        let ul = if u.len() == s.len() {
            u.last()
        } else {
            tl
        };
        lemma_tree_eq_equivalence(s.last(), tl, ul);
    }
}

// ---------------------------------------------------------------- parsing

/// Why a raw field value could not become a predicate.
#[derive(Clone, Debug)]
pub enum QueryError {
    /// The field identifier is not in the registry.
    UnknownField(String),
    /// The raw text does not parse as the field's kind.
    TypeMismatch(String),
    /// A comparison whose number does not parse; holds the text after the
    /// operator.
    MalformedComparison(String),
}

/// The type a raw field value is parsed to.
#[derive(Clone, Copy, Debug, PartialEq, Eq, Structural)]
pub enum ItemKind {
    Bool,
    Int,
    String,
    CmpFloat,
    CmpInt,
    Float,
}

/// How a comparison written without `>` or `<` is read.
#[derive(Clone, Copy, Debug, PartialEq, Eq, Structural)]
pub enum BareComparison {
    /// As an exact match: `7` and `=7` both give `eq` set and `bigger` clear.
    Exact,
    /// As a lower bound: `bigger` set, and `eq` only where `=` is written
    /// (`7` gives `bigger` alone, `=7` gives both).
    Greater,
}

/// The reading of a comparison: `(bigger, eq, text of the number)`.
pub open spec fn cmp_split(s: Seq<char>, mode: BareComparison) -> (bool, bool, Seq<char>) {
    let dir = s.len() > 0 && (s[0] == '>' || s[0] == '<');
    let t = if dir {
        s.skip(1)
    } else {
        s
    };
    let eq = t.len() > 0 && t[0] == '=';
    let num = if eq {
        t.skip(1)
    } else {
        t
    };
    if dir {
        (s[0] == '>', eq, num)
    } else {
        match mode {
            BareComparison::Exact => (false, true, num),
            BareComparison::Greater => (true, eq, num),
        }
    }
}

pub open spec fn is_malformed(e: QueryError, text: Seq<char>) -> bool {
    e matches QueryError::MalformedComparison(t) && t@ == text
}

pub open spec fn is_mismatch(e: QueryError, text: Seq<char>) -> bool {
    e matches QueryError::TypeMismatch(t) && t@ == text
}

/// What parsing a comparison of integers gives.
pub open spec fn cmp_int_result(
    s: Seq<char>,
    mode: BareComparison,
    r: Result<(bool, bool, i64), QueryError>,
) -> bool {
    let (bigger, eq, num) = cmp_split(s, mode);
    match i64_of_text(num) {
        Some(v) => r == Ok::<(bool, bool, i64), QueryError>((bigger, eq, v)),
        None => r matches Err(e) && is_malformed(e, num),
    }
}

/// What parsing a comparison of decimals gives.
pub open spec fn cmp_decimal_result(
    s: Seq<char>,
    mode: BareComparison,
    r: Result<(bool, bool, Decimal), QueryError>,
) -> bool {
    let (bigger, eq, num) = cmp_split(s, mode);
    match decimal_of_text(num) {
        Some(v) => r == Ok::<(bool, bool, Decimal), QueryError>((bigger, eq, v)),
        None => r matches Err(e) && is_malformed(e, num),
    }
}

pub open spec fn bool_of_text(s: Seq<char>) -> Option<bool> {
    if s == seq!['t', 'r', 'u', 'e'] {
        Some(true)
    } else if s == seq!['f', 'a', 'l', 's', 'e'] {
        Some(false)
    } else {
        None
    }
}

/// What parsing `s` as `kind` gives.
pub open spec fn parse_result(
    kind: ItemKind,
    s: Seq<char>,
    mode: BareComparison,
    r: Result<ItemValue, QueryError>,
) -> bool {
    let (bigger, eq, num) = cmp_split(s, mode);
    match kind {
        ItemKind::Bool => match bool_of_text(s) {
            Some(b) => r == Ok::<ItemValue, QueryError>(ItemValue::Bool(b)),
            None => r matches Err(e) && is_mismatch(e, s),
        },
        ItemKind::Int => match i64_of_text(s) {
            Some(v) => r == Ok::<ItemValue, QueryError>(ItemValue::Int(v)),
            None => r matches Err(e) && is_mismatch(e, s),
        },
        ItemKind::Float => match decimal_of_text(s) {
            Some(v) => r == Ok::<ItemValue, QueryError>(ItemValue::Float(v)),
            None => r matches Err(e) && is_mismatch(e, s),
        },
        ItemKind::String => r matches Ok(ItemValue::String(t)) && t@ == s,
        ItemKind::CmpFloat => match decimal_of_text(num) {
            Some(v) => r == Ok::<ItemValue, QueryError>(
                ItemValue::CmpFloat { eq, bigger, value: v },
            ),
            None => r matches Err(e) && is_malformed(e, num),
        },
        ItemKind::CmpInt => match i64_of_text(num) {
            Some(v) => r == Ok::<ItemValue, QueryError>(ItemValue::CmpInt { eq, bigger, value: v }),
            None => r matches Err(e) && is_malformed(e, num),
        },
    }
}

/// Splits a comparison into its direction, its inclusiveness and the text of
/// its number: an optional `>` or `<`, then an optional `=`.
pub fn split_cmp<'a>(s: &'a str, mode: BareComparison) -> (r: (bool, bool, &'a str))
    ensures
        (r.0, r.1, r.2@) == cmp_split(s@, mode),
{
    let len = s.unicode_len();
    let mut dir = false;
    let mut bigger = false;
    let mut t: &str = s;
    if len > 0 {
        let c = s.get_char(0);
        if c == '>' || c == '<' {
            dir = true;
            bigger = c == '>';
            t = s.substring_char(1, len);
        }
    }
    let tlen = t.unicode_len();
    let mut eq = false;
    let mut num: &str = t;
    if tlen > 0 && t.get_char(0) == '=' {
        eq = true;
        num = t.substring_char(1, tlen);
    }
    if dir {
        (bigger, eq, num)
    } else {
        match mode {
            BareComparison::Exact => (false, true, num),
            BareComparison::Greater => (true, eq, num),
        }
    }
}

/// Parses a comparison of integers, such as `>=5` or `<10`.
pub fn parse_cmp_int(s: &str, mode: BareComparison) -> (r: Result<(bool, bool, i64), QueryError>)
    ensures
        cmp_int_result(s@, mode, r),
{
    let (bigger, eq, num) = split_cmp(s, mode);
    match parse_i64(num) {
        Some(v) => Ok((bigger, eq, v)),
        None => Err(QueryError::MalformedComparison(String::from_str(num))),
    }
}

/// Parses a comparison of decimals, such as `>=1.5` or `<10`.
pub fn parse_cmp_decimal(s: &str, mode: BareComparison) -> (r: Result<(bool, bool, Decimal), QueryError>)
    ensures
        cmp_decimal_result(s@, mode, r),
{
    let (bigger, eq, num) = split_cmp(s, mode);
    match parse_decimal(num) {
        Some(v) => Ok((bigger, eq, v)),
        None => Err(QueryError::MalformedComparison(String::from_str(num))),
    }
}

fn parse_bool(s: &str) -> (r: Option<bool>)
    ensures
        r == bool_of_text(s@),
{
    proof {
        reveal_strlit("true");
        reveal_strlit("false");
    }
    let t = String::from_str(s);
    if t == String::from_str("true") {
        assert(s@ =~= seq!['t', 'r', 'u', 'e']);
        Some(true)
    } else if t == String::from_str("false") {
        assert(s@ =~= seq!['f', 'a', 'l', 's', 'e']);
        Some(false)
    } else {
        assert(s@ != seq!['t', 'r', 'u', 'e']) by {
            if s@ == seq!['t', 'r', 'u', 'e'] {
                assert("true"@ =~= s@);
            }
        }
        assert(s@ != seq!['f', 'a', 'l', 's', 'e']) by {
            if s@ == seq!['f', 'a', 'l', 's', 'e'] {
                assert("false"@ =~= s@);
            }
        }
        None
    }
}

impl ItemKind {
    /// Parses a raw value as this kind, reading a comparison without `>` or
    /// `<` as an exact match.
    pub fn parse(&self, s: &str) -> (r: Result<ItemValue, QueryError>)
        ensures
            parse_result(*self, s@, BareComparison::Exact, r),
    {
        self.parse_with(s, BareComparison::Exact)
    }

    /// Parses a raw value as this kind, reading a comparison without `>` or
    /// `<` as `mode` says.
    pub fn parse_with(&self, s: &str, mode: BareComparison) -> (r: Result<ItemValue, QueryError>)
        ensures
            parse_result(*self, s@, mode, r),
    {
        match self {
            ItemKind::Bool => match parse_bool(s) {
                Some(b) => Ok(ItemValue::Bool(b)),
                None => Err(QueryError::TypeMismatch(String::from_str(s))),
            },
            ItemKind::Int => match parse_i64(s) {
                Some(v) => Ok(ItemValue::Int(v)),
                None => Err(QueryError::TypeMismatch(String::from_str(s))),
            },
            ItemKind::Float => match parse_decimal(s) {
                Some(v) => Ok(ItemValue::Float(v)),
                None => Err(QueryError::TypeMismatch(String::from_str(s))),
            },
            ItemKind::String => Ok(ItemValue::String(String::from_str(s))),
            ItemKind::CmpFloat => match parse_cmp_decimal(s, mode) {
                Ok((bigger, eq, value)) => Ok(ItemValue::CmpFloat { eq, bigger, value }),
                Err(e) => Err(e),
            },
            ItemKind::CmpInt => match parse_cmp_int(s, mode) {
                Ok((bigger, eq, value)) => Ok(ItemValue::CmpInt { eq, bigger, value }),
                Err(e) => Err(e),
            },
        }
    }
}

/// The text `[<>]?=?digits(.digits)?` built from its pieces; `dir` is empty or
/// one of `>` and `<`, and an empty `fp` means no fraction.
pub open spec fn cmp_text(dir: Seq<char>, eq: bool, ip: Seq<char>, fp: Seq<char>) -> Seq<char> {
    dir + (if eq {
        seq!['=']
    } else {
        Seq::empty()
    }) + ip + (if fp.len() > 0 {
        seq!['.'] + fp
    } else {
        Seq::empty()
    })
}

/// The direction and inclusiveness that a comparison with these pieces reads as.
pub open spec fn expected_flags(dir: Seq<char>, eq: bool, mode: BareComparison) -> (bool, bool) {
    if dir.len() == 1 {
        (dir[0] == '>', eq)
    } else {
        match mode {
            BareComparison::Exact => (false, true),
            BareComparison::Greater => (true, eq),
        }
    }
}

/// Every text of the form `[<>]?=?digits(.digits)?` parses as a comparison of
/// decimals, with the flags of the chosen reading and the written digits,
/// rounded to 19 significant digits.
pub proof fn lemma_cmp_grammar_parses(
    dir: Seq<char>,
    eq: bool,
    ip: Seq<char>,
    fp: Seq<char>,
    mode: BareComparison,
)
    requires
        dir.len() <= 1,
        dir.len() == 1 ==> dir[0] == '>' || dir[0] == '<',
        ip.len() > 0,
        all_digits(ip),
        all_digits(fp),
    ensures
        forall|r: Result<(bool, bool, Decimal), QueryError>|
            #[trigger] cmp_decimal_result(cmp_text(dir, eq, ip, fp), mode, r) ==> r == Ok::<
                (bool, bool, Decimal),
                QueryError,
            >(
                (
                    expected_flags(dir, eq, mode).0,
                    expected_flags(dir, eq, mode).1,
                    Decimal {
                        negative: false,
                        digits: kept_value(ip + fp) as u64,
                        scale: (fp.len() - dropped_digits(ip + fp)) as i128,
                    },
                ),
            ),
{
    let eqs = if eq {
        seq!['=']
    } else {
        Seq::<char>::empty()
    };
    let tail = if fp.len() > 0 {
        seq!['.'] + fp
    } else {
        Seq::<char>::empty()
    };
    let num = ip + tail;
    assert(cmp_text(dir, eq, ip, fp) =~= dir + eqs + num);
    assert(is_digit(num[0]));
    lemma_split_operator(dir, eq, num, mode);
    lemma_plain_decimal(ip, fp);
}

/// Every text of the form `[<>]?=?digits` parses as a comparison of integers,
/// with the flags of the chosen reading and the written number (as far as it
/// fits in an `i64`).
pub proof fn lemma_cmp_int_grammar_parses(dir: Seq<char>, eq: bool, ip: Seq<char>, mode: BareComparison)
    requires
        dir.len() <= 1,
        dir.len() == 1 ==> dir[0] == '>' || dir[0] == '<',
        ip.len() > 0,
        all_digits(ip),
        digits_value(ip) <= i64::MAX,
    ensures
        forall|r: Result<(bool, bool, i64), QueryError>|
            #[trigger] cmp_int_result(cmp_text(dir, eq, ip, Seq::empty()), mode, r) ==> r == Ok::<
                (bool, bool, i64),
                QueryError,
            >(
                (
                    expected_flags(dir, eq, mode).0,
                    expected_flags(dir, eq, mode).1,
                    digits_value(ip) as i64,
                ),
            ),
{
    let eqs = if eq {
        seq!['=']
    } else {
        Seq::<char>::empty()
    };
    assert(cmp_text(dir, eq, ip, Seq::empty()) =~= dir + eqs + ip);
    assert(is_digit(ip[0]));
    lemma_split_operator(dir, eq, ip, mode);
    assert(sign_len(ip) == 0);
    assert(ip.skip(0) =~= ip);
}

proof fn lemma_split_operator(dir: Seq<char>, eq: bool, num: Seq<char>, mode: BareComparison)
    requires
        dir.len() <= 1,
        dir.len() == 1 ==> dir[0] == '>' || dir[0] == '<',
        num.len() > 0,
        is_digit(num[0]),
    ensures
        ({
            let eqs = if eq {
                seq!['=']
            } else {
                Seq::<char>::empty()
            };
            cmp_split(dir + eqs + num, mode) == (
                expected_flags(dir, eq, mode).0,
                expected_flags(dir, eq, mode).1,
                num,
            )
        }),
{
    let eqs = if eq {
        seq!['=']
    } else {
        Seq::<char>::empty()
    };
    let s = dir + eqs + num;
    if dir.len() == 1 {
        assert(s.skip(1) =~= eqs + num);
        if eq {
            assert(s.skip(1).skip(1) =~= num);
        }
    } else {
        assert(s =~= eqs + num);
        if eq {
            assert(s.skip(1) =~= num);
        }
    }
}

proof fn lemma_plain_decimal(ip: Seq<char>, fp: Seq<char>)
    requires
        ip.len() > 0,
        all_digits(ip),
        all_digits(fp),
    ensures
        decimal_of_text(
            ip + (if fp.len() > 0 {
                seq!['.'] + fp
            } else {
                Seq::<char>::empty()
            }),
        ) == Some(
            Decimal {
                negative: false,
                digits: kept_value(ip + fp) as u64,
                scale: (fp.len() - dropped_digits(ip + fp)) as i128,
            },
        ),
{
    let tail = if fp.len() > 0 {
        seq!['.'] + fp
    } else {
        Seq::<char>::empty()
    };
    let num = ip + tail;
    assert(is_digit(ip[0]));
    assert(sign_len(num) == 0);
    assert(num.skip(0) =~= num);
    assert forall|t: int| 0 <= t < num.len() implies !is_exp_mark(#[trigger] num[t]) by {
        if t < ip.len() {
            assert(is_digit(ip[t]));
        } else if t > ip.len() {
            assert(is_digit(fp[t - ip.len() - 1]));
        }
    }
    lemma_exp_index(num, num.len() as int);
    assert(num.take(num.len() as int) =~= num);
    assert(mantissa(num) == num);
    assert(exponent_text(num) is None);
    assert(num.take(ip.len() as int) =~= ip);
    lemma_dot_index(num, ip.len() as int);
    assert(int_digits(num) =~= ip);
    if fp.len() > 0 {
        assert(num.skip(ip.len() + 1int) =~= fp);
    }
    assert(frac_digits(num) =~= fp);
}

/// A comparison with an operator but no number does not parse: the error
/// names the empty remainder.
pub proof fn lemma_cmp_without_number_fails(dir: Seq<char>, eq: bool, mode: BareComparison)
    requires
        dir.len() == 1,
        dir[0] == '>' || dir[0] == '<',
    ensures
        forall|r: Result<(bool, bool, Decimal), QueryError>|
            #[trigger] cmp_decimal_result(cmp_text(dir, eq, Seq::empty(), Seq::empty()), mode, r)
                ==> (r matches Err(e) && is_malformed(e, Seq::empty())),
        forall|r: Result<(bool, bool, i64), QueryError>|
            #[trigger] cmp_int_result(cmp_text(dir, eq, Seq::empty(), Seq::empty()), mode, r)
                ==> (r matches Err(e) && is_malformed(e, Seq::empty())),
{
    let s = cmp_text(dir, eq, Seq::empty(), Seq::empty());
    let n = cmp_split(s, mode).2;
    if eq {
        assert(s.skip(1).skip(1) =~= Seq::<char>::empty());
    } else {
        assert(s.skip(1) =~= Seq::<char>::empty());
    }
    assert(n =~= Seq::<char>::empty());
    assert(dot_index(n) == 0);
    assert(int_digits(n) =~= Seq::<char>::empty());
    assert(frac_digits(n) =~= Seq::<char>::empty());
}

// ---------------------------------------------------------------- registry

/// A searchable field: its name, its other spellings, and the kind its raw
/// values are parsed to.
#[derive(Debug)]
pub struct Field {
    pub name: String,
    pub abbr: Vec<String>,
    pub kind: ItemKind,
}

/// Whether `key` spells the field: its name or one of its abbreviations,
/// compared case-sensitively.
pub open spec fn field_matches(f: Field, key: Seq<char>) -> bool {
    f.name@ == key || exists|i: int| 0 <= i < f.abbr@.len() && (#[trigger] f.abbr@[i])@ == key
}

/// Field `i` is the first one that `key` spells.
pub open spec fn found_at(fields: Seq<Field>, key: Seq<char>, i: int) -> bool {
    0 <= i < fields.len() && field_matches(fields[i], key) && forall|j: int|
        0 <= j < i ==> !field_matches(#[trigger] fields[j], key)
}

impl Field {
    pub fn new(name: String, abbr: Vec<String>, kind: ItemKind) -> (r: Field)
        ensures
            r == (Field { name, abbr, kind }),
    {
        Field { name, abbr, kind }
    }

    /// Whether `key` is the field's name or one of its abbreviations.
    pub fn matches(&self, key: &String) -> (r: bool)
        ensures
            r == field_matches(*self, key@),
    {
        if self.name == *key {
            return true;
        }
        let n = self.abbr.len();
        let mut i: usize = 0;
        while i < n
            invariant
                n == self.abbr@.len(),
                i <= n,
                forall|j: int| 0 <= j < i ==> (#[trigger] self.abbr@[j])@ != key@,
            decreases n - i,
        {
            if self.abbr[i] == *key {
                return true;
            }
            i = i + 1;
        }
        false
    }
}

/// The searchable fields of one domain.
#[derive(Debug)]
pub struct Registry {
    pub fields: Vec<Field>,
}

impl Registry {
    /// No spelling names two fields.
    pub open spec fn wf(&self) -> bool {
        forall|i: int, j: int, key: Seq<char>|
            #![trigger field_matches(self.fields@[i], key), field_matches(self.fields@[j], key)]
            0 <= i < self.fields@.len() && 0 <= j < self.fields@.len() && i != j
                ==> !(field_matches(self.fields@[i], key) && field_matches(self.fields@[j], key))
    }

    pub fn new(fields: Vec<Field>) -> (r: Registry)
        ensures
            r.fields == fields,
    {
        Registry { fields }
    }

    /// The field that `key` spells, as its name or as an abbreviation.
    pub fn lookup(&self, key: &str) -> (r: Result<&Field, QueryError>)
        ensures
            r is Ok <==> exists|i: int|
                0 <= i < self.fields@.len() && field_matches(#[trigger] self.fields@[i], key@),
            r matches Ok(f) ==> exists|i: int| found_at(self.fields@, key@, i) && self.fields@[i] == *f,
            r matches Err(e) ==> e matches QueryError::UnknownField(t) && t@ == key@,
    {
        let k = String::from_str(key);
        let n = self.fields.len();
        let mut i: usize = 0;
        while i < n
            invariant
                n == self.fields@.len(),
                i <= n,
                k@ == key@,
                forall|j: int| 0 <= j < i ==> !field_matches(#[trigger] self.fields@[j], key@),
            decreases n - i,
        {
            if self.fields[i].matches(&k) {
                assert(found_at(self.fields@, key@, i as int));
                return Ok(&self.fields[i]);
            }
            i = i + 1;
        }
        Err(QueryError::UnknownField(k))
    }

    /// Parses the raw value of the field that `key` spells into a predicate on
    /// that field, under the field's canonical name.
    pub fn parse(&self, key: &str, raw: &str) -> (r: Result<ItemData, QueryError>)
        ensures
            (forall|i: int| 0 <= i < self.fields@.len() ==> !field_matches(#[trigger] self.fields@[i], key@))
                ==> (r matches Err(e) && e matches QueryError::UnknownField(t) && t@ == key@),
            forall|i: int| #[trigger] found_at(self.fields@, key@, i) ==> {
                let f = self.fields@[i];
                exists|v: Result<ItemValue, QueryError>|
                    #[trigger] parse_result(f.kind, raw@, BareComparison::Exact, v) && match v {
                        Ok(value) => r matches Ok(d) && d.name@ == f.name@ && d.value == value,
                        Err(e) => r == Err::<ItemData, QueryError>(e),
                    }
            },
    {
        match self.lookup(key) {
            Err(e) => Err(e),
            Ok(f) => {
                let v = f.kind.parse(raw);
                let ghost gv = v;
                proof {
                    assert forall|i: int| #[trigger] found_at(self.fields@, key@, i) implies self.fields@[i] == *f by {
                        let j = choose|j: int| found_at(self.fields@, key@, j) && self.fields@[j] == *f;
                        if i < j {
                            assert(!field_matches(self.fields@[i], key@));
                        } else if j < i {
                            assert(!field_matches(self.fields@[j], key@));
                        }
                    }
                }
                match v {
                    Ok(value) => Ok(ItemData { name: f.name.clone(), value }),
                    Err(e) => Err(e),
                }
            },
        }
    }
}

/// In a registry where no spelling names two fields, each spelling of a field
/// (its name and every abbreviation) resolves to that same field.
pub proof fn lemma_spellings_resolve_to_one_field(reg: Registry, i: int, key: Seq<char>)
    requires
        reg.wf(),
        0 <= i < reg.fields@.len(),
        field_matches(reg.fields@[i], key),
    ensures
        found_at(reg.fields@, key, i),
        forall|j: int| #[trigger] found_at(reg.fields@, key, j) ==> j == i,
{
    assert forall|j: int| 0 <= j < i implies !field_matches(#[trigger] reg.fields@[j], key) by {
        assert(!(field_matches(reg.fields@[j], key) && field_matches(reg.fields@[i], key)));
    }
}

} // verus!
