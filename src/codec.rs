//! Schema-driven decoding of positional records.
use vstd::prelude::*;
use crate::error::ClientError;
use crate::wire::{Decimal, Wire};

verus! {

/// What one position of a positional record holds.
#[derive(Clone, Copy, Debug, PartialEq, Eq, Structural)]
pub enum Slot {
    /// A reserved position: consumed, never read.
    Skip,
    Int,
    OptInt,
    Int32,
    OptInt32,
    Dec,
    OptDec,
    Str,
    OptStr,
    /// Any value, kept as it came; `null` reads as absent.
    Any,
    /// A nested positional array.
    Record,
}

/// The element at position `i`, or `null` past the end: positions missing at
/// the tail of an array read as `null`.
pub open spec fn item_at(items: Seq<Wire>, i: int) -> Wire {
    if 0 <= i < items.len() {
        items[i]
    } else {
        Wire::Null
    }
}

pub open spec fn in_i32(n: i64) -> bool {
    i32::MIN <= n && n <= i32::MAX
}

/// Whether a value may stand at a position of the given kind.
pub open spec fn fits(w: Wire, k: Slot) -> bool {
    match k {
        Slot::Skip | Slot::Any => true,
        Slot::Int => w is Int,
        Slot::OptInt => w is Null || w is Int,
        Slot::Int32 => w is Int && in_i32(w->Int_0),
        Slot::OptInt32 => w is Null || (w is Int && in_i32(w->Int_0)),
        Slot::Dec => w is Int || w is Num,
        Slot::OptDec => w is Null || w is Int || w is Num,
        Slot::Str => w is Str,
        Slot::OptStr => w is Null || w is Str,
        Slot::Record => w is Array,
    }
}

/// A slot that accepts `null`, and so may be missing at the tail.
pub open spec fn optional(k: Slot) -> bool {
    fits(Wire::Null, k)
}

/// An array decodes against a schema when every declared position holds a
/// value of its kind; elements past the schema are ignored.
pub open spec fn conforms(items: Seq<Wire>, schema: Seq<Slot>) -> bool {
    forall|i: int| 0 <= i < schema.len() ==> #[trigger] fits(item_at(items, i), schema[i])
}

/// The fewest elements an array must have to decode: up to the last slot
/// that does not accept `null`.
pub open spec fn min_len(schema: Seq<Slot>) -> nat
    decreases schema.len(),
{
    if schema.len() == 0 {
        0
    } else if !optional(schema.last()) {
        schema.len()
    } else {
        min_len(schema.drop_last())
    }
}

pub open spec fn int_of(w: Wire) -> i64 {
    match w {
        Wire::Int(n) => n,
        _ => 0,
    }
}

pub open spec fn int32_of(w: Wire) -> i32 {
    match w {
        Wire::Int(n) => if in_i32(n) {
            n as i32
        } else {
            0
        },
        _ => 0,
    }
}

pub open spec fn opt_int32_of(w: Wire) -> Option<i32> {
    if w is Int && in_i32(w->Int_0) {
        Some(w->Int_0 as i32)
    } else {
        None
    }
}

/// The elements of an array value; nothing for any other value.
pub open spec fn elems(w: Wire) -> Seq<Wire> {
    match w {
        Wire::Array(v) => v@,
        _ => Seq::empty(),
    }
}

/// Whether `w` is an array that decodes against `schema`.
pub open spec fn array_conforms(w: Wire, schema: Seq<Slot>) -> bool {
    w is Array && conforms(elems(w), schema)
}

pub open spec fn opt_int_of(w: Wire) -> Option<i64> {
    if w is Int {
        Some(w->Int_0)
    } else {
        None
    }
}

pub open spec fn dec_of(w: Wire) -> Decimal {
    match w {
        Wire::Int(n) => Decimal { mantissa: n as i128, scale: 0 },
        Wire::Num(d) => d,
        _ => Decimal { mantissa: 0, scale: 0 },
    }
}

pub open spec fn opt_dec_of(w: Wire) -> Option<Decimal> {
    if w is Int || w is Num {
        Some(dec_of(w))
    } else {
        None
    }
}

pub open spec fn str_of(w: Wire) -> Seq<char> {
    match w {
        Wire::Str(s) => s@,
        _ => Seq::empty(),
    }
}

pub open spec fn opt_str_of(w: Wire) -> Option<Seq<char>> {
    if w is Str {
        Some(str_of(w))
    } else {
        None
    }
}

pub open spec fn opt_any_of(w: Wire) -> Option<Wire> {
    if w is Null {
        None
    } else {
        Some(w)
    }
}

pub open spec fn opt_view(o: Option<String>) -> Option<Seq<char>> {
    match o {
        Some(s) => Some(s@),
        None => None,
    }
}

proof fn lemma_min_len(schema: Seq<Slot>)
    ensures
        min_len(schema) <= schema.len(),
        min_len(schema) > 0 ==> !optional(schema[min_len(schema) - 1]),
    decreases schema.len(),
{
    if schema.len() > 0 && optional(schema.last()) {
        lemma_min_len(schema.drop_last());
    }
}

/// Elements appended after the declared positions of an array change neither
/// whether it decodes nor what any declared position holds.
pub proof fn lemma_trailing_ignored(items: Seq<Wire>, extra: Seq<Wire>, schema: Seq<Slot>)
    requires
        items.len() >= schema.len(),
    ensures
        conforms(items + extra, schema) == conforms(items, schema),
        forall|i: int| 0 <= i < schema.len() ==> #[trigger] item_at(items + extra, i) == item_at(items, i),
{
    assert forall|i: int| 0 <= i < schema.len() implies #[trigger] item_at(items + extra, i) == item_at(items, i) by {
        assert((items + extra)[i] == items[i]);
    }
    if conforms(items, schema) {
        assert forall|i: int| 0 <= i < schema.len() implies #[trigger] fits(item_at(items + extra, i), schema[i]) by {
            assert(item_at(items + extra, i) == item_at(items, i));
        }
    }
    if conforms(items + extra, schema) {
        assert forall|i: int| 0 <= i < schema.len() implies #[trigger] fits(item_at(items, i), schema[i]) by {
            assert(item_at(items + extra, i) == item_at(items, i));
        }
    }
}

/// An array cut short of the fewest elements a schema needs does not decode.
pub proof fn lemma_truncated_rejected(items: Seq<Wire>, schema: Seq<Slot>, k: int)
    requires
        0 <= k <= items.len(),
        k < min_len(schema),
    ensures
        !conforms(items.take(k), schema),
{
    lemma_min_len(schema);
    let m = min_len(schema) - 1;
    assert(item_at(items.take(k), m) == Wire::Null);
    assert(!fits(item_at(items.take(k), m), schema[m]));
}

/// The value under `name` in an object's entries, the first such, or `null`.
pub open spec fn field_of(entries: Seq<(String, Wire)>, name: Seq<char>) -> Wire
    decreases entries.len(),
{
    if entries.len() == 0 {
        Wire::Null
    } else if entries[0].0@ == name {
        entries[0].1
    } else {
        field_of(entries.drop_first(), name)
    }
}

/// An object's values laid out at the positions of the declared names.
pub open spec fn by_names(entries: Seq<(String, Wire)>, names: Seq<&str>) -> Seq<Wire> {
    Seq::new(names.len(), |i: int| field_of(entries, names[i]@))
}

pub open spec fn distinct_names(names: Seq<&str>) -> bool {
    forall|i: int, j: int| 0 <= i < j < names.len() ==> names[i]@ != names[j]@
}

/// Where the first entry under `name` stands, if any.
fn find_entry(entries: &Vec<(String, Wire)>, name: &str) -> (r: Option<usize>)
    ensures
        r is None ==> field_of(entries@, name@) == Wire::Null && forall|j: int|
            0 <= j < entries@.len() ==> entries@[j].0@ != name@,
        r matches Some(j) ==> j < entries@.len() && entries@[j as int].0@ == name@
            && field_of(entries@, name@) == entries@[j as int].1 && forall|k: int|
            0 <= k < j ==> entries@[k].0@ != name@,
{
    let mut j: usize = 0;
    assert(entries@.skip(0) =~= entries@);
    while j < entries.len()
        invariant
            j <= entries@.len(),
            forall|k: int| 0 <= k < j ==> entries@[k].0@ != name@,
            field_of(entries@, name@) == field_of(entries@.skip(j as int), name@),
        decreases entries@.len() - j,
    {
        assert(entries@.skip(j as int).drop_first() =~= entries@.skip(j + 1));
        if same_text(entries[j].0.as_str(), name) {
            return Some(j);
        }
        j = j + 1;
    }
    assert(entries@.skip(j as int).len() == 0);
    None
}

proof fn lemma_field_of_cleared(entries: Seq<(String, Wire)>, j: int, name: Seq<char>)
    requires
        0 <= j < entries.len(),
        entries[j].0@ != name,
    ensures
        field_of(entries.update(j, (entries[j].0, Wire::Null)), name) == field_of(entries, name),
    decreases entries.len(),
{
    let e2 = entries.update(j, (entries[j].0, Wire::Null));
    if j > 0 {
        assert(e2.drop_first() =~= entries.drop_first().update(j - 1, (entries[j].0, Wire::Null)));
        lemma_field_of_cleared(entries.drop_first(), j - 1, name);
    } else {
        assert(e2.drop_first() =~= entries.drop_first());
    }
}

/// Lays an object out by the declared names, moving each value to the
/// position of its name; a name the object lacks reads as `null`.
pub fn positional_from_object(entries: Vec<(String, Wire)>, names: &Vec<&str>) -> (r: Vec<Wire>)
    requires
        distinct_names(names@),
    ensures
        r@ == by_names(entries@, names@),
{
    let ghost orig = entries@;
    let mut entries = entries;
    let mut out: Vec<Wire> = Vec::new();
    let mut i: usize = 0;
    while i < names.len()
        invariant
            i <= names@.len(),
            distinct_names(names@),
            out@.len() == i,
            forall|k: int| 0 <= k < i ==> out@[k] == field_of(orig, names@[k]@),
            forall|k: int| i <= k < names@.len() ==> field_of(entries@, names@[k]@) == field_of(orig, names@[k]@),
        decreases names@.len() - i,
    {
        let name = names[i];
        match find_entry(&entries, name) {
            None => out.push(Wire::Null),
            Some(j) => {
                let ghost before = entries@;
                let (key, value) = entries.remove(j);
                entries.insert(j, (key, Wire::Null));
                proof {
                    assert(entries@ =~= before.update(j as int, (before[j as int].0, Wire::Null)));
                    assert forall|k: int| i < k < names@.len() implies field_of(entries@, names@[k]@)
                        == field_of(orig, names@[k]@) by {
                        assert(names@[i as int]@ != names@[k]@);
                        lemma_field_of_cleared(before, j as int, names@[k]@);
                    }
                }
                out.push(value);
            },
        }
        i = i + 1;
    }
    assert(out@ =~= by_names(orig, names@));
    out
}

/// Whether two values mean the same: numbers of equal value, texts of equal
/// characters, or otherwise the same value.
pub open spec fn same_value(a: Wire, b: Wire) -> bool {
    if (a is Int || a is Num) && (b is Int || b is Num) {
        dec_of(a) == dec_of(b)
    } else if a is Str && b is Str {
        str_of(a) == str_of(b)
    } else {
        a == b
    }
}

/// How an absent field is written: as `null`.
pub open spec fn opt_int_wire(o: Option<i64>) -> Wire {
    match o {
        Some(n) => Wire::Int(n),
        None => Wire::Null,
    }
}

pub open spec fn opt_int32_wire(o: Option<i32>) -> Wire {
    match o {
        Some(n) => Wire::Int(n as i64),
        None => Wire::Null,
    }
}

pub open spec fn opt_dec_wire(o: Option<Decimal>) -> Wire {
    match o {
        Some(d) => Wire::Num(d),
        None => Wire::Null,
    }
}

pub open spec fn opt_str_wire(o: Option<String>) -> Wire {
    match o {
        Some(s) => Wire::Str(s),
        None => Wire::Null,
    }
}

pub open spec fn opt_any_wire(o: Option<Wire>) -> Wire {
    match o {
        Some(w) => w,
        None => Wire::Null,
    }
}

/// The entries of an object value, each key by its characters.
pub open spec fn entries_view(w: Wire) -> Seq<(Seq<char>, Wire)> {
    match w {
        Wire::Object(e) => e@.map_values(|x: (String, Wire)| (x.0@, x.1)),
        _ => Seq::empty(),
    }
}

/// `e` is a protocol error that carries the value `w` and names the record
/// `name` that was expected.
pub open spec fn protocol_error(e: ClientError, w: Wire, name: Seq<char>) -> bool {
    match e {
        ClientError::Protocol { record, payload } => payload == w && record@ == name,
        _ => false,
    }
}

/// Whether a notification envelope reports success.
pub open spec fn succeeded(items: Seq<Wire>) -> bool {
    str_of(item_at(items, 6)) == "SUCCESS"@
}

/// `r` is the exchange's refusal that a notification envelope reports:
/// its status, its code and its text.
pub open spec fn rejected<T>(r: Result<T, ClientError>, items: Seq<Wire>) -> bool {
    match r {
        Err(ClientError::Exchange { status, code, text }) => status@ == str_of(item_at(items, 6))
            && code == opt_any_of(item_at(items, 5)) && opt_view(text) == opt_str_of(
            item_at(items, 7),
        ),
        _ => false,
    }
}

/// Whether `w` may stand in a slot of kind `k`.
pub fn slot_fits(w: &Wire, k: Slot) -> (r: bool)
    ensures
        r == fits(*w, k),
{
    match k {
        Slot::Skip | Slot::Any => true,
        Slot::Int => matches!(w, Wire::Int(_)),
        Slot::OptInt => matches!(w, Wire::Null | Wire::Int(_)),
        Slot::Int32 => match w {
            Wire::Int(n) => i32::MIN as i64 <= *n && *n <= i32::MAX as i64,
            _ => false,
        },
        Slot::OptInt32 => match w {
            Wire::Null => true,
            Wire::Int(n) => i32::MIN as i64 <= *n && *n <= i32::MAX as i64,
            _ => false,
        },
        Slot::Dec => matches!(w, Wire::Int(_) | Wire::Num(_)),
        Slot::OptDec => matches!(w, Wire::Null | Wire::Int(_) | Wire::Num(_)),
        Slot::Str => matches!(w, Wire::Str(_)),
        Slot::OptStr => matches!(w, Wire::Null | Wire::Str(_)),
        Slot::Record => matches!(w, Wire::Array(_)),
    }
}

/// Checks a positional array against a schema.
pub fn check(items: &Vec<Wire>, schema: &Vec<Slot>) -> (r: bool)
    ensures
        r == conforms(items@, schema@),
{
    let null = Wire::Null;
    let mut i: usize = 0;
    while i < schema.len()
        invariant
            i <= schema@.len(),
            null == Wire::Null,
            forall|j: int| 0 <= j < i ==> #[trigger] fits(item_at(items@, j), schema@[j]),
        decreases schema@.len() - i,
    {
        let w = if i < items.len() { &items[i] } else { &null };
        if !slot_fits(w, schema[i]) {
            assert(!fits(item_at(items@, i as int), schema@[i as int]));
            return false;
        }
        i = i + 1;
    }
    true
}

/// The element at position `i`, or `null` past the end.
pub fn item<'a>(items: &'a Vec<Wire>, i: usize, null: &'a Wire) -> (r: &'a Wire)
    requires
        *null == Wire::Null,
    ensures
        *r == item_at(items@, i as int),
{
    if i < items.len() {
        &items[i]
    } else {
        null
    }
}

pub fn read_int(w: &Wire) -> (r: i64)
    ensures
        r == int_of(*w),
{
    match w {
        Wire::Int(n) => *n,
        _ => 0,
    }
}

pub fn read_opt_int(w: &Wire) -> (r: Option<i64>)
    ensures
        r == opt_int_of(*w),
{
    match w {
        Wire::Int(n) => Some(*n),
        _ => None,
    }
}

pub fn read_int32(w: &Wire) -> (r: i32)
    ensures
        r == int32_of(*w),
{
    match w {
        Wire::Int(n) => if i32::MIN as i64 <= *n && *n <= i32::MAX as i64 {
            *n as i32
        } else {
            0
        },
        _ => 0,
    }
}

pub fn read_opt_int32(w: &Wire) -> (r: Option<i32>)
    ensures
        r == opt_int32_of(*w),
{
    match w {
        Wire::Int(n) => if i32::MIN as i64 <= *n && *n <= i32::MAX as i64 {
            Some(*n as i32)
        } else {
            None
        },
        _ => None,
    }
}

pub fn read_dec(w: &Wire) -> (r: Decimal)
    ensures
        r == dec_of(*w),
{
    match w {
        Wire::Int(n) => Decimal { mantissa: *n as i128, scale: 0 },
        Wire::Num(d) => *d,
        _ => Decimal { mantissa: 0, scale: 0 },
    }
}

pub fn read_opt_dec(w: &Wire) -> (r: Option<Decimal>)
    ensures
        r == opt_dec_of(*w),
{
    match w {
        Wire::Int(_) | Wire::Num(_) => Some(read_dec(w)),
        _ => None,
    }
}

pub fn read_str(w: &Wire) -> (r: String)
    ensures
        r@ == str_of(*w),
{
    match w {
        Wire::Str(s) => s.clone(),
        _ => String::new(),
    }
}

pub fn read_opt_str(w: &Wire) -> (r: Option<String>)
    ensures
        opt_view(r) == opt_str_of(*w),
{
    match w {
        Wire::Str(s) => Some(s.clone()),
        _ => None,
    }
}

/// Moves the element at position `i` out of `items`, leaving `null` in its
/// place; `null` past the end.
pub fn take_item(items: &mut Vec<Wire>, i: usize) -> (r: Wire)
    ensures
        r == item_at(old(items)@, i as int),
        final(items)@.len() == old(items)@.len(),
        forall|j: int| 0 <= j < old(items)@.len() && j != i ==> final(items)@[j] == old(items)@[j],
{
    if i < items.len() {
        items.push(Wire::Null);
        let r = items.swap_remove(i);
        r
    } else {
        Wire::Null
    }
}

pub fn read_any(w: Wire) -> (r: Option<Wire>)
    ensures
        r == opt_any_of(w),
{
    match w {
        Wire::Null => None,
        _ => Some(w),
    }
}

/// The elements of `w` when it is an array that decodes against `schema`;
/// otherwise a protocol error that carries `w` and the record's name.
pub fn expect_array(w: Wire, schema: &Vec<Slot>, record: &str) -> (r: Result<Vec<Wire>, ClientError>)
    ensures
        r is Ok <==> array_conforms(w, schema@),
        r matches Ok(items) ==> items@ == elems(w),
        r matches Err(e) ==> protocol_error(e, w, record@),
{
    match w {
        Wire::Array(items) => {
            if check(&items, schema) {
                Ok(items)
            } else {
                Err(ClientError::Protocol { record: record.to_owned(), payload: Wire::Array(items) })
            }
        },
        _ => Err(ClientError::Protocol { record: record.to_owned(), payload: w }),
    }
}

/// Whether two texts are the same.
pub fn same_text(a: &str, b: &str) -> (r: bool)
    ensures
        r == (a@ == b@),
{
    let n = a.unicode_len();
    if n != b.unicode_len() {
        return false;
    }
    let mut i: usize = 0;
    while i < n
        invariant
            i <= n == a@.len() == b@.len(),
            forall|j: int| 0 <= j < i ==> a@[j] == b@[j],
        decreases n - i,
    {
        if a.get_char(i) != b.get_char(i) {
            return false;
        }
        i = i + 1;
    }
    assert(a@ =~= b@);
    true
}

/// The slots of a notification envelope whose payload is not read.
pub open spec fn notice_schema() -> Seq<Slot> {
    seq![Slot::Int, Slot::Str, Slot::Any, Slot::Skip, Slot::Any, Slot::Any, Slot::Str, Slot::OptStr]
}

fn notice_slots() -> (r: Vec<Slot>)
    ensures
        r@ == notice_schema(),
{
    vec![Slot::Int, Slot::Str, Slot::Any, Slot::Skip, Slot::Any, Slot::Any, Slot::Str, Slot::OptStr]
}

/// The outcome that a notification envelope reports, whatever its payload:
/// success, the exchange's refusal, or a protocol error when `w` is not an
/// envelope.
pub fn envelope_outcome(w: Wire) -> (r: Result<(), ClientError>)
    ensures
        r is Ok <==> array_conforms(w, notice_schema()) && succeeded(elems(w)),
        array_conforms(w, notice_schema()) && !succeeded(elems(w)) ==> rejected(r, elems(w)),
        !array_conforms(w, notice_schema()) ==> (r matches Err(e) && protocol_error(e, w, "notification"@)),
{
    let mut items = match expect_array(w, &notice_slots(), "notification") {
        Ok(items) => items,
        Err(e) => return Err(e),
    };
    let null = Wire::Null;
    let status = read_str(item(&items, 6, &null));
    let text = read_opt_str(item(&items, 7, &null));
    if !same_text(status.as_str(), "SUCCESS") {
        let code = read_any(take_item(&mut items, 5));
        return Err(ClientError::Exchange { status, code, text });
    }
    Ok(())
}

} // verus!
