//! The value mapper: bidirectional conversion between host values and engine
//! values.
//!
//! Host to engine: scalars pass through; a table whose keys are exactly the
//! integers `1..=n` becomes a list ordered by key, any other table becomes a
//! map with stringified keys; conversion is recursive up to `MAX_DEPTH`
//! levels of nesting, and fails on the first unsupported value or key in
//! traversal order, reporting its type name and path.
//!
//! Engine to host: scalars pass through, lists become tables keyed `1..=n`,
//! maps become tables with string keys, nodes and relationships are
//! flattened to their property map, and null becomes nil.

use vstd::prelude::*;

use crate::errors::ConversionError;
use crate::errors::ConversionFault;
use crate::errors::PathSeg;
use crate::errors::VConversionError;
use crate::errors::VConversionFault;
use crate::errors::VPathSeg;
use crate::host::HostKey;
use crate::host::HostNumber;
use crate::host::HostValue;
use crate::host::VHost;
use crate::host::VKey;
use crate::host::VNum;
use crate::host::host_entries_view;
use crate::host::host_view;
use crate::host::lemma_host_entries_view;
use crate::value::lemma_value_entries_view;
use crate::value::lemma_value_items_view;
use crate::value::value_entries_view;
use crate::value::value_items_view;
use crate::value::VValue;
use crate::value::Value;

verus! {

/// How deep a host structure may nest before conversion refuses it. The
/// bound keeps recursion on adversarial input from exhausting the stack.
pub const MAX_DEPTH: usize = 64;

/// The decimal digits of `n`, most significant first.
pub open spec fn dec_digits(n: nat) -> Seq<char>
    decreases n,
{
    if n < 10 {
        seq![digit_char(n)]
    } else {
        dec_digits(n / 10) + seq![digit_char(n % 10)]
    }
}

/// The character for one decimal digit.
pub open spec fn digit_char(d: nat) -> char {
    if d == 0 {
        '0'
    } else if d == 1 {
        '1'
    } else if d == 2 {
        '2'
    } else if d == 3 {
        '3'
    } else if d == 4 {
        '4'
    } else if d == 5 {
        '5'
    } else if d == 6 {
        '6'
    } else if d == 7 {
        '7'
    } else if d == 8 {
        '8'
    } else {
        '9'
    }
}

/// The decimal rendering of an integer, with a leading minus sign when
/// negative.
pub open spec fn dec_int(i: int) -> Seq<char> {
    if i < 0 {
        seq!['-'] + dec_digits((-i) as nat)
    } else {
        dec_digits(i as nat)
    }
}

/// What a table key becomes as a map key: integers are rendered in decimal,
/// strings pass through, anything else fails naming the key's type.
pub open spec fn conv_key(k: VKey) -> Result<Seq<char>, VConversionFault> {
    match k {
        VKey::Int(i) => Ok(dec_int(i)),
        VKey::Str(s) => Ok(s),
        VKey::Unsupported(t) => Err(VConversionFault::UnsupportedKey(t)),
    }
}

/// Does this key equal the integer `k`?
pub open spec fn key_is(key: VKey, k: int) -> bool {
    key == VKey::Int(k)
}

/// A table is sequential when its keys are distinct integers that all lie in
/// `1..=n`, where `n` is the number of entries; the keys are then exactly
/// `1..=n` in some order. The empty table counts as sequential.
pub open spec fn is_sequential(entries: Seq<(VKey, VHost)>) -> bool {
    &&& forall|i: int|
        0 <= i < entries.len() ==> int_key_in_range(#[trigger] entries[i].0, entries.len() as int)
    &&& forall|i: int, j: int| 0 <= i < j < entries.len() ==> entries[i].0 != entries[j].0
}

/// Is this key an integer in `1..=n`?
pub open spec fn int_key_in_range(key: VKey, n: int) -> bool {
    match key {
        VKey::Int(v) => 1 <= v <= n,
        _ => false,
    }
}

/// The index of the first entry whose key is the integer `k`, or `-1` when
/// there is none.
pub open spec fn key_index(entries: Seq<(VKey, VHost)>, k: int) -> int
    decreases entries,
{
    if entries.len() == 0 {
        -1
    } else if key_is(entries[0].0, k) {
        0
    } else {
        let rest = key_index(entries.drop_first(), k);
        if rest < 0 {
            -1
        } else {
            rest + 1
        }
    }
}

/// `key_index` finds the first entry with key `k`, when there is one.
pub proof fn lemma_key_index(entries: Seq<(VKey, VHost)>, k: int)
    ensures
        key_index(entries, k) < entries.len(),
        key_index(entries, k) >= -1,
        key_index(entries, k) >= 0 ==> key_is(entries[key_index(entries, k)].0, k),
        key_index(entries, k) == -1 ==> forall|i: int|
            0 <= i < entries.len() ==> !key_is(#[trigger] entries[i].0, k),
        forall|i: int|
            0 <= i < key_index(entries, k) ==> !key_is(#[trigger] entries[i].0, k),
    decreases entries,
{
    if entries.len() > 0 && !key_is(entries[0].0, k) {
        lemma_key_index(entries.drop_first(), k);
        assert forall|i: int|
            0 <= i < entries.len() && (key_index(entries, k) == -1 || i < key_index(
                entries,
                k,
            )) implies !key_is(entries[i].0, k) by {
            if i > 0 {
                assert(entries.drop_first()[i - 1] == entries[i]);
            }
        }
    }
}

/// In a sequential table every key `1..=n` is present: `n` distinct keys
/// inside a range of `n` integers must cover it.
pub proof fn lemma_sequential_covers(entries: Seq<(VKey, VHost)>, k: int)
    requires
        is_sequential(entries),
        1 <= k <= entries.len(),
    ensures
        0 <= key_index(entries, k) < entries.len(),
{
    lemma_key_index(entries, k);
    if key_index(entries, k) == -1 {
        let keys = Seq::new(entries.len(), |i: int| key_int_of(entries[i].0));
        assert(keys.no_duplicates()) by {
            assert forall|i: int, j: int|
                0 <= i < keys.len() && 0 <= j < keys.len() && i != j implies keys[i] != keys[j] by {
                assert(int_key_in_range(entries[i].0, entries.len() as int));
                assert(int_key_in_range(entries[j].0, entries.len() as int));
            }
        }
        keys.unique_seq_to_set();
        let present = keys.to_set();
        let range = vstd::set_lib::set_int_range(1, entries.len() as int + 1);
        vstd::set_lib::lemma_int_range(1, entries.len() as int + 1);
        assert(present.subset_of(range.remove(k))) by {
            assert forall|x: int| present.contains(x) implies range.remove(k).contains(x) by {
                let i = choose|i: int| 0 <= i < keys.len() && keys[i] == x;
                assert(int_key_in_range(entries[i].0, entries.len() as int));
                assert(!key_is(entries[i].0, k));
            }
        }
        assert(range.remove(k).len() == entries.len() - 1) by {
            assert(range.contains(k));
        }
        vstd::set_lib::lemma_len_subset(present, range.remove(k));
    }
}

/// The integer a key carries; meaningful for `Int` keys only.
pub open spec fn key_int_of(key: VKey) -> int {
    match key {
        VKey::Int(v) => v,
        _ => 0,
    }
}

/// A table whose keys are exactly `1..=n` in order is sequential.
pub proof fn lemma_in_order_is_sequential(entries: Seq<(VKey, VHost)>)
    requires
        int_keys_in_order(entries),
    ensures
        is_sequential(entries),
{
    assert forall|i: int| 0 <= i < entries.len() implies int_key_in_range(
        #[trigger] entries[i].0,
        entries.len() as int,
    ) by {
        assert(entries[i].0 == VKey::Int(i + 1));
    }
}

/// Host-to-engine conversion of one value, with `fuel` levels of table
/// nesting still allowed. Fails on the first unsupported value or key in
/// traversal order; for a sequential table the traversal runs by key
/// `1..=n`, for any other table in entry order.
pub open spec fn conv_host(h: VHost, fuel: nat) -> Result<VValue, VConversionError>
    decreases h, 0int,
{
    match h {
        VHost::Nil => Ok(VValue::Null),
        VHost::Bool(b) => Ok(VValue::Bool(b)),
        VHost::Num(VNum::Whole(i)) => Ok(VValue::Int(i)),
        VHost::Num(VNum::Fractional(bits)) => Ok(VValue::Float(bits)),
        VHost::Str(s) => Ok(VValue::Str(s)),
        VHost::Unsupported(t) => Err(
            VConversionError { path: Seq::empty(), fault: VConversionFault::UnsupportedValue(t) },
        ),
        VHost::Table(entries) => {
            if fuel == 0 {
                Err(VConversionError { path: Seq::empty(), fault: VConversionFault::DepthExceeded })
            } else if is_sequential(entries) {
                match conv_list(entries, 1, (fuel - 1) as nat) {
                    Ok(items) => Ok(VValue::List(items)),
                    Err(e) => Err(e),
                }
            } else {
                match conv_map(entries, (fuel - 1) as nat) {
                    Ok(es) => Ok(VValue::Mapping(es)),
                    Err(e) => Err(e),
                }
            }
        },
    }
}

/// Conversion of the items of a sequential table, for keys `k..=n` in key
/// order. A key that no entry carries falls back to null; on a sequential
/// table that never happens (`lemma_sequential_covers`).
pub open spec fn conv_list(entries: Seq<(VKey, VHost)>, k: int, fuel: nat) -> Result<
    Seq<VValue>,
    VConversionError,
>
    decreases entries, entries.len() + 1 - k,
{
    if k < 1 || k > entries.len() {
        Ok(Seq::empty())
    } else {
        let j = key_index(entries, k);
        let item = if j < 0 {
            Ok(VValue::Null)
        } else {
            proof {
                lemma_key_index(entries, k);
            }
            conv_host(entries[j].1, fuel)
        };
        match item {
            Ok(v) => match conv_list(entries, k + 1, fuel) {
                Ok(rest) => Ok(seq![v] + rest),
                Err(e) => Err(e),
            },
            Err(e) => Err(
                VConversionError { path: seq![VPathSeg::Index(k)] + e.path, fault: e.fault },
            ),
        }
    }
}

/// Conversion of a non-sequential table's entries, in entry order. Keys are
/// stringified; the path of a failure below an entry is extended with that
/// entry's key.
pub open spec fn conv_map(entries: Seq<(VKey, VHost)>, fuel: nat) -> Result<
    Seq<(Seq<char>, VValue)>,
    VConversionError,
>
    decreases entries, 0int,
{
    if entries.len() == 0 {
        Ok(Seq::empty())
    } else {
        match conv_key(entries[0].0) {
            Err(fault) => Err(VConversionError { path: Seq::empty(), fault }),
            Ok(name) => match conv_host(entries[0].1, fuel) {
                Err(e) => Err(
                    VConversionError { path: seq![VPathSeg::Key(name)] + e.path, fault: e.fault },
                ),
                Ok(v) => match conv_map(entries.drop_first(), fuel) {
                    Err(e) => Err(e),
                    Ok(rest) => Ok(seq![(name, v)] + rest),
                },
            },
        }
    }
}

/// Engine-to-host conversion: total. Scalars pass through, a list becomes a
/// table keyed `1..=n` in order, a map becomes a table with string keys in
/// entry order, nodes and relationships are flattened to their property
/// map, and null becomes nil.
pub open spec fn back_host(v: VValue) -> VHost
    decreases v, 0int,
{
    match v {
        VValue::Null => VHost::Nil,
        VValue::Bool(b) => VHost::Bool(b),
        VValue::Int(i) => VHost::Num(VNum::Whole(i)),
        VValue::Float(bits) => VHost::Num(VNum::Fractional(bits)),
        VValue::Str(s) => VHost::Str(s),
        VValue::List(items) => VHost::Table(back_items(items, 1)),
        VValue::Mapping(es) => VHost::Table(back_entries(es)),
        VValue::Node(es) => VHost::Table(back_entries(es)),
        VValue::Relationship(es) => VHost::Table(back_entries(es)),
    }
}

/// List items become table entries keyed `k`, `k+1`, ... in order.
pub open spec fn back_items(items: Seq<VValue>, k: int) -> Seq<(VKey, VHost)>
    decreases items, 0int,
{
    if items.len() == 0 {
        Seq::empty()
    } else {
        seq![(VKey::Int(k), back_host(items[0]))] + back_items(items.drop_first(), k + 1)
    }
}

/// Map entries become table entries with string keys, in order.
pub open spec fn back_entries(es: Seq<(Seq<char>, VValue)>) -> Seq<(VKey, VHost)>
    decreases es, 0int,
{
    if es.len() == 0 {
        Seq::empty()
    } else {
        seq![(VKey::Str(es[0].0), back_host(es[0].1))] + back_entries(es.drop_first())
    }
}

/// The view of an exec conversion result.
pub open spec fn conv_result_view(r: Result<Value, ConversionError>) -> Result<
    VValue,
    VConversionError,
> {
    match r {
        Ok(v) => Ok(v@),
        Err(e) => Err(e@),
    }
}

/// The view of an exec key conversion result.
pub open spec fn key_result_view(r: Result<String, ConversionFault>) -> Result<
    Seq<char>,
    VConversionFault,
> {
    match r {
        Ok(s) => Ok(s@),
        Err(f) => Err(f@),
    }
}

/// The view of an exec map conversion result.
pub open spec fn map_result_view(r: Result<Vec<(String, Value)>, ConversionError>) -> Result<
    Seq<(Seq<char>, VValue)>,
    VConversionError,
> {
    match r {
        Ok(v) => Ok(value_entries_view(v@)),
        Err(e) => Err(e@),
    }
}

/// The view of an exec list conversion result.
pub open spec fn list_result_view(r: Result<Vec<Value>, ConversionError>) -> Result<
    Seq<VValue>,
    VConversionError,
> {
    match r {
        Ok(v) => Ok(value_items_view(v@)),
        Err(e) => Err(e@),
    }
}

/// One decimal digit as a string slice.
fn digit_str(d: u64) -> (r: &'static str)
    requires
        d < 10,
    ensures
        r@ == seq![digit_char(d as nat)],
{
    proof {
        reveal_strlit("0");
        reveal_strlit("1");
        reveal_strlit("2");
        reveal_strlit("3");
        reveal_strlit("4");
        reveal_strlit("5");
        reveal_strlit("6");
        reveal_strlit("7");
        reveal_strlit("8");
        reveal_strlit("9");
    }
    if d == 0 {
        "0"
    } else if d == 1 {
        "1"
    } else if d == 2 {
        "2"
    } else if d == 3 {
        "3"
    } else if d == 4 {
        "4"
    } else if d == 5 {
        "5"
    } else if d == 6 {
        "6"
    } else if d == 7 {
        "7"
    } else if d == 8 {
        "8"
    } else {
        "9"
    }
}

/// The decimal rendering of an unsigned number.
fn u64_to_dec(n: u64) -> (s: String)
    ensures
        s@ == dec_digits(n as nat),
    decreases n,
{
    if n < 10 {
        digit_str(n).to_owned()
    } else {
        let mut s = u64_to_dec(n / 10);
        s.append(digit_str(n % 10));
        s
    }
}

/// The decimal rendering of a signed number, as `dec_int` states it.
pub fn i64_to_dec(i: i64) -> (s: String)
    ensures
        s@ == dec_int(i as int),
{
    if i >= 0 {
        u64_to_dec(i as u64)
    } else {
        let wide: i128 = i as i128;
        let mag: u64 = (-wide) as u64;
        proof {
            reveal_strlit("-");
        }
        let mut s = "-".to_owned();
        let digits = u64_to_dec(mag);
        s.append(digits.as_str());
        s
    }
}

/// A table key as a map key: the decimal rendering of an integer key, a
/// string key itself, and an error naming the type of any other key.
fn key_to_string(k: &HostKey) -> (r: Result<String, ConversionFault>)
    ensures
        key_result_view(r) == conv_key(k@),
{
    match k {
        HostKey::Int(i) => Ok(i64_to_dec(*i)),
        HostKey::Str(s) => Ok(s.clone()),
        HostKey::Unsupported(t) => Err(ConversionFault::UnsupportedKey(t.clone())),
    }
}

/// Does this key equal the integer `k`?
fn key_matches_index(key: &HostKey, k: usize) -> (r: bool)
    ensures
        r == key_is(key@, k as int),
{
    match key {
        HostKey::Int(v) => *v >= 0 && (*v as u64) == (k as u64),
        _ => false,
    }
}

/// The first entry whose key is the integer `k`, when any entry carries it.
fn find_int_key(entries: &Vec<(HostKey, HostValue)>, k: usize) -> (r: Option<usize>)
    ensures
        match r {
            Some(j) => j < entries.len() && key_index(host_entries_view(entries@), k as int)
                == j as int,
            None => key_index(host_entries_view(entries@), k as int) == -1,
        },
{
    broadcast use crate::host::lemma_host_entries_view;

    let ghost hv = host_entries_view(entries@);
    let mut i: usize = 0;
    while i < entries.len()
        invariant
            i <= entries.len(),
            hv == host_entries_view(entries@),
            forall|j: int| 0 <= j < i ==> !key_is(#[trigger] hv[j].0, k as int),
        decreases entries.len() - i,
    {
        proof {
            lemma_host_entries_view(entries@);
        }
        if key_matches_index(&entries[i].0, k) {
            proof {
                lemma_key_index(hv, k as int);
                let ki = key_index(hv, k as int);
                assert(key_is(hv[i as int].0, k as int));
                if ki < i {
                    assert(!key_is(hv[ki].0, k as int));
                }
                if ki > i {
                    assert(!key_is(hv[i as int].0, k as int));
                }
            }
            return Some(i);
        }
        i += 1;
    }
    proof {
        lemma_host_entries_view(entries@);
        lemma_key_index(hv, k as int);
    }
    None
}

/// Do two keys hold the same value?
fn keys_equal(a: &HostKey, b: &HostKey) -> (r: bool)
    ensures
        r == (a@ == b@),
{
    match (a, b) {
        (HostKey::Int(x), HostKey::Int(y)) => *x == *y,
        (HostKey::Str(x), HostKey::Str(y)) => x.eq(y),
        (HostKey::Unsupported(x), HostKey::Unsupported(y)) => x.eq(y),
        _ => false,
    }
}

/// Is this table sequential: keys distinct integers covering `1..=n`?
fn check_sequential(entries: &Vec<(HostKey, HostValue)>) -> (r: bool)
    ensures
        r == is_sequential(host_entries_view(entries@)),
{
    broadcast use crate::host::lemma_host_entries_view;

    let ghost hv = host_entries_view(entries@);
    let n = entries.len();
    let mut i: usize = 0;
    while i < n
        invariant
            i <= n,
            n == entries.len(),
            hv == host_entries_view(entries@),
            forall|j: int| 0 <= j < i ==> int_key_in_range(#[trigger] hv[j].0, n as int),
        decreases n - i,
    {
        proof {
            lemma_host_entries_view(entries@);
        }
        let in_range = match &entries[i].0 {
            HostKey::Int(v) => 1 <= *v && (*v as u64) <= (n as u64),
            _ => false,
        };
        if !in_range {
            proof {
                assert(!int_key_in_range(hv[i as int].0, n as int));
                assert(hv.len() == n as int);
            }
            return false;
        }
        i += 1;
    }
    let mut i: usize = 0;
    while i < n
        invariant
            i <= n,
            n == entries.len(),
            hv == host_entries_view(entries@),
            forall|j: int| 0 <= j < n ==> int_key_in_range(#[trigger] hv[j].0, n as int),
            forall|p: int, q: int| 0 <= p < q < n && p < i ==> hv[p].0 != hv[q].0,
        decreases n - i,
    {
        proof {
            lemma_host_entries_view(entries@);
        }
        let mut j: usize = i + 1;
        while j < n
            invariant
                i < j <= n,
                i < n,
                n == entries.len(),
                hv == host_entries_view(entries@),
                forall|q: int| i < q < j ==> hv[i as int].0 != #[trigger] hv[q].0,
            decreases n - j,
        {
            proof {
                lemma_host_entries_view(entries@);
            }
            if keys_equal(&entries[i].0, &entries[j].0) {
                proof {
                    assert(hv[i as int].0 == hv[j as int].0);
                    assert(hv.len() == n as int);
                }
                return false;
            }
            j += 1;
        }
        i += 1;
    }
    proof {
        lemma_host_entries_view(entries@);
        assert(hv.len() == n as int);
        assert forall|j: int| 0 <= j < hv.len() implies int_key_in_range(
            #[trigger] hv[j].0,
            hv.len() as int,
        ) by {}
    }
    true
}

/// A conversion error located at the current value, with an empty path.
fn error_here(fault: ConversionFault) -> (r: ConversionError)
    ensures
        r@ == (VConversionError { path: Seq::empty(), fault: fault@ }),
{
    let r = ConversionError { path: Vec::new(), fault };
    proof {
        assert(r.path.deep_view() =~= Seq::<VPathSeg>::empty());
    }
    r
}

/// A conversion error from one level further down, with the segment that
/// leads there put in front of its path.
pub(crate) fn prefix_error(seg: PathSeg, e: ConversionError) -> (r: ConversionError)
    ensures
        r@ == (VConversionError { path: seq![seg@] + e@.path, fault: e@.fault }),
{
    let ghost old_vec = e.path@;
    let ghost old_path = e.path.deep_view();
    let mut e = e;
    e.path.insert(0, seg);
    proof {
        assert forall|i: int| 0 <= i < e.path.deep_view().len() implies e.path.deep_view()[i]
            == (seq![seg@] + old_path)[i] by {
            if i > 0 {
                assert(e.path@[i] == old_vec[i - 1]);
            }
        }
        assert(e.path.deep_view() =~= seq![seg@] + old_path);
    }
    e
}

/// Host-to-engine conversion of one value, with the full nesting allowance.
/// The result is exactly what `conv_host` states: the converted value, or
/// the first conversion failure in traversal order with its path.
pub fn host_to_value(h: &HostValue) -> (r: Result<Value, ConversionError>)
    ensures
        conv_result_view(r) == conv_host(h@, MAX_DEPTH as nat),
{
    convert_host(h, MAX_DEPTH)
}

/// Conversion of one query parameter value. A parameter sits one level
/// below the parameter table, so it gets one level less of the nesting
/// allowance, as a value inside a converted table would.
pub(crate) fn host_to_param_value(h: &HostValue) -> (r: Result<Value, ConversionError>)
    ensures
        conv_result_view(r) == conv_host(h@, (MAX_DEPTH - 1) as nat),
{
    convert_host(h, MAX_DEPTH - 1)
}

/// Recursive worker behind `host_to_value`.
fn convert_host(h: &HostValue, fuel: usize) -> (r: Result<Value, ConversionError>)
    ensures
        conv_result_view(r) == conv_host(h@, fuel as nat),
    decreases h, 0int,
{
    match h {
        HostValue::Nil => Ok(Value::Null),
        HostValue::Bool(b) => Ok(Value::Bool(*b)),
        HostValue::Num(HostNumber::Whole(i)) => Ok(Value::Int(*i)),
        HostValue::Num(HostNumber::Fractional(bits)) => Ok(Value::Float(*bits)),
        HostValue::Str(s) => Ok(Value::Str(s.clone())),
        HostValue::Unsupported(t) => Err(
            error_here(ConversionFault::UnsupportedValue(t.clone())),
        ),
        HostValue::Table(entries) => {
            if fuel == 0 {
                return Err(error_here(ConversionFault::DepthExceeded));
            }
            if check_sequential(entries) {
                match convert_list_entries(entries, fuel - 1) {
                    Ok(items) => Ok(Value::List(items)),
                    Err(e) => Err(e),
                }
            } else {
                match convert_map_entries(entries, fuel - 1) {
                    Ok(out) => Ok(Value::Mapping(out)),
                    Err(e) => Err(e),
                }
            }
        },
    }
}

/// Conversion of a sequential table into list items ordered by key.
fn convert_list_entries(entries: &Vec<(HostKey, HostValue)>, fuel: usize) -> (r: Result<
    Vec<Value>,
    ConversionError,
>)
    ensures
        list_result_view(r) == conv_list(host_entries_view(entries@), 1, fuel as nat),
    decreases entries@, 0int,
{
    let ghost hv = host_entries_view(entries@);
    let n = entries.len();
    let mut k: usize = n;
    let mut partial: Result<Vec<Value>, ConversionError> = Ok(Vec::new());
    proof {
        lemma_host_entries_view(entries@);
    }
    while k >= 1
        invariant
            k <= n,
            n == entries.len(),
            hv == host_entries_view(entries@),
            hv.len() == n as int,
            list_result_view(partial) == conv_list(hv, k as int + 1, fuel as nat),
        decreases k,
    {
        proof {
            lemma_host_entries_view(entries@);
        }
        let found = find_int_key(entries, k);
        let item: Result<Value, ConversionError> = match found {
            Some(j) => convert_host(&entries[j].1, fuel),
            None => Ok(Value::Null),
        };
        let ghost spec_item = if key_index(hv, k as int) < 0 {
            Ok::<VValue, VConversionError>(VValue::Null)
        } else {
            conv_host(hv[key_index(hv, k as int)].1, fuel as nat)
        };
        proof {
            assert(conv_result_view(item) == spec_item);
        }
        partial = match item {
            Err(e) => Err(prefix_error(PathSeg::Index(k), e)),
            Ok(v) => match partial {
                Ok(mut items) => {
                    let ghost old_items = items@;
                    items.insert(0, v);
                    proof {
                        assert(items@.drop_first() =~= old_items);
                        assert(value_items_view(items@) == seq![v@]
                            + value_items_view(old_items));
                    }
                    Ok(items)
                },
                Err(e) => Err(e),
            },
        };
        k -= 1;
    }
    partial
}

/// Conversion of a non-sequential table's entries, in entry order, with
/// stringified keys.
pub(crate) fn convert_map_entries(entries: &Vec<(HostKey, HostValue)>, fuel: usize) -> (r: Result<
    Vec<(String, Value)>,
    ConversionError,
>)
    ensures
        map_result_view(r) == conv_map(host_entries_view(entries@), fuel as nat),
    decreases entries@, 0int,
{
    let ghost hv = host_entries_view(entries@);
    let n = entries.len();
    let mut idx: usize = n;
    let mut partial: Result<Vec<(String, Value)>, ConversionError> = Ok(Vec::new());
    proof {
        lemma_host_entries_view(entries@);
        assert(hv.subrange(n as int, n as int) =~= Seq::empty());
    }
    while idx >= 1
        invariant
            idx <= n,
            n == entries.len(),
            hv == host_entries_view(entries@),
            hv.len() == n as int,
            map_result_view(partial) == conv_map(
                hv.subrange(idx as int, n as int),
                fuel as nat,
            ),
        decreases idx,
    {
        proof {
            lemma_host_entries_view(entries@);
        }
        let i = idx - 1;
        let ghost sub = hv.subrange(i as int, n as int);
        proof {
            assert(sub[0] == hv[i as int]);
            assert(sub.drop_first() =~= hv.subrange(idx as int, n as int));
        }
        let keyr = key_to_string(&entries[i].0);
        let valr = convert_host(&entries[i].1, fuel);
        partial = match keyr {
            Err(f) => Err(error_here(f)),
            Ok(name) => match valr {
                Err(e) => Err(prefix_error(PathSeg::Key(name), e)),
                Ok(v) => match partial {
                    Ok(mut out) => {
                        let ghost old_out = out@;
                        out.insert(0, (name, v));
                        proof {
                            assert(out@.drop_first() =~= old_out);
                            assert(value_entries_view(out@) == seq![
                                (out@[0].0@, out@[0].1@),
                            ] + value_entries_view(old_out));
                        }
                        Ok(out)
                    },
                    Err(e) => Err(e),
                },
            },
        };
        idx = i;
    }
    proof {
        assert(hv.subrange(0, n as int) =~= hv);
    }
    partial
}

/// Do every list's length and nesting fit the host's integer keys? True of
/// any value the engine actually materialized in memory.
pub open spec fn lists_fit(v: VValue) -> bool
    decreases v, 1int,
{
    match v {
        VValue::List(items) => items.len() <= i64::MAX && seq_values_fit(items),
        VValue::Mapping(es) => entry_values_all_fit(es),
        VValue::Node(es) => entry_values_all_fit(es),
        VValue::Relationship(es) => entry_values_all_fit(es),
        _ => true,
    }
}

/// Do all values of a sequence satisfy `lists_fit`?
pub open spec fn seq_values_fit(items: Seq<VValue>) -> bool
    decreases items, 0int,
{
    forall|i: int| 0 <= i < items.len() ==> lists_fit(#[trigger] items[i])
}

/// Do all entry values satisfy `lists_fit`?
pub open spec fn entry_values_all_fit(es: Seq<(Seq<char>, VValue)>) -> bool
    decreases es, 0int,
{
    forall|i: int| 0 <= i < es.len() ==> lists_fit((#[trigger] es[i]).1)
}

/// Engine-to-host conversion, total on values whose lists fit the host's
/// integer keys: exactly what `back_host` states.
pub fn value_to_host(v: &Value) -> (h: HostValue)
    requires
        lists_fit(v@),
    ensures
        h@ == back_host(v@),
    decreases v, 0int,
{
    match v {
        Value::Null => HostValue::Nil,
        Value::Bool(b) => HostValue::Bool(*b),
        Value::Int(i) => HostValue::Num(HostNumber::Whole(*i)),
        Value::Float(bits) => HostValue::Num(HostNumber::Fractional(*bits)),
        Value::Str(s) => HostValue::Str(s.clone()),
        Value::List(items) => HostValue::Table(back_convert_items(items)),
        Value::Mapping(entries) => HostValue::Table(back_convert_entries(entries)),
        Value::Node(entries) => HostValue::Table(back_convert_entries(entries)),
        Value::Relationship(entries) => HostValue::Table(back_convert_entries(entries)),
    }
}

/// List items as host table entries keyed `1..=n` in order.
fn back_convert_items(items: &Vec<Value>) -> (out: Vec<(HostKey, HostValue)>)
    requires
        value_items_view(items@).len() <= i64::MAX,
        seq_values_fit(value_items_view(items@)),
    ensures
        host_entries_view(out@) == back_items(value_items_view(items@), 1),
    decreases items@, 0int,
{
    let ghost vitems = value_items_view(items@);
    proof {
        lemma_value_items_view(items@);
    }
    let n = items.len();
    let mut out: Vec<(HostKey, HostValue)> = Vec::new();
    let mut idx: usize = n;
    proof {
        assert(vitems.subrange(n as int, n as int) =~= Seq::empty());
    }
    while idx >= 1
        invariant
            idx <= n,
            n == items.len(),
            vitems == value_items_view(items@),
            vitems.len() == n as int,
            n as int <= i64::MAX,
            seq_values_fit(vitems),
            host_entries_view(out@) == back_items(
                vitems.subrange(idx as int, n as int),
                idx as int + 1,
            ),
        decreases idx,
    {
        proof {
            lemma_value_items_view(items@);
        }
        let i = idx - 1;
        let ghost sub = vitems.subrange(i as int, n as int);
        proof {
            assert(sub[0] == vitems[i as int]);
            assert(sub.drop_first() =~= vitems.subrange(idx as int, n as int));
        }
        let hv = value_to_host(&items[i]);
        let ghost old_out = out@;
        out.insert(0, (HostKey::Int((i + 1) as i64), hv));
        proof {
            assert(out@.drop_first() =~= old_out);
            assert(host_entries_view(out@) == seq![
                (out@[0].0@, host_view(out@[0].1)),
            ] + host_entries_view(old_out));
        }
        idx = i;
    }
    proof {
        assert(vitems.subrange(0, n as int) =~= vitems);
    }
    out
}

/// Map, node or relationship entries as host table entries with string keys.
fn back_convert_entries(entries: &Vec<(String, Value)>) -> (out: Vec<(HostKey, HostValue)>)
    requires
        entry_values_all_fit(value_entries_view(entries@)),
    ensures
        host_entries_view(out@) == back_entries(value_entries_view(entries@)),
    decreases entries@, 0int,
{
    let ghost ve = value_entries_view(entries@);
    proof {
        lemma_value_entries_view(entries@);
    }
    let n = entries.len();
    let mut out: Vec<(HostKey, HostValue)> = Vec::new();
    let mut idx: usize = n;
    proof {
        assert(ve.subrange(n as int, n as int) =~= Seq::empty());
    }
    while idx >= 1
        invariant
            idx <= n,
            n == entries.len(),
            ve == value_entries_view(entries@),
            ve.len() == n as int,
            entry_values_all_fit(ve),
            host_entries_view(out@) == back_entries(ve.subrange(idx as int, n as int)),
        decreases idx,
    {
        proof {
            lemma_value_entries_view(entries@);
        }
        let i = idx - 1;
        let ghost sub = ve.subrange(i as int, n as int);
        proof {
            assert(sub[0] == ve[i as int]);
            assert(sub.drop_first() =~= ve.subrange(idx as int, n as int));
        }
        let hv = value_to_host(&entries[i].1);
        let key = entries[i].0.clone();
        let ghost old_out = out@;
        out.insert(0, (HostKey::Str(key), hv));
        proof {
            assert(out@.drop_first() =~= old_out);
            assert(host_entries_view(out@) == seq![(out@[0].0@, host_view(out@[0].1))]
                + host_entries_view(old_out));
        }
        idx = i;
    }
    proof {
        assert(ve.subrange(0, n as int) =~= ve);
    }
    out
}

/// A result row as a host table: column names become string keys.
pub open spec fn back_row(r: crate::value::VRow) -> VHost {
    VHost::Table(back_entries(r.cols))
}

/// Do a row's values fit the host's integer keys?
pub open spec fn row_fits(r: crate::value::VRow) -> bool {
    entry_values_all_fit(r.cols)
}

/// One result row as a host table.
pub fn row_to_host(row: &crate::value::Row) -> (h: HostValue)
    requires
        row_fits(row@),
    ensures
        h@ == back_row(row@),
{
    HostValue::Table(back_convert_entries(&row.cols))
}

/// A whole result set as host tables, row by row, order kept.
pub fn rows_to_host(rows: &Vec<crate::value::Row>) -> (out: Vec<HostValue>)
    requires
        forall|i: int| 0 <= i < rows@.len() ==> row_fits((#[trigger] rows@[i])@),
    ensures
        out@.len() == rows@.len(),
        forall|i: int| 0 <= i < rows@.len() ==> (#[trigger] out@[i])@ == back_row(rows@[i]@),
{
    let mut out: Vec<HostValue> = Vec::new();
    let mut i: usize = 0;
    while i < rows.len()
        invariant
            i <= rows.len(),
            out@.len() == i as int,
            forall|j: int| 0 <= j < rows@.len() ==> row_fits((#[trigger] rows@[j])@),
            forall|j: int| 0 <= j < i ==> (#[trigger] out@[j])@ == back_row(rows@[j]@),
        decreases rows.len() - i,
    {
        let h = row_to_host(&rows[i]);
        out.push(h);
        i += 1;
    }
    out
}

/// Are all keys of a table strings?
pub open spec fn all_str_keys(entries: Seq<(VKey, VHost)>) -> bool {
    forall|i: int| 0 <= i < entries.len() ==> (#[trigger] entries[i].0) is Str
}

/// Are the keys exactly `1..=n`, in increasing order?
pub open spec fn int_keys_in_order(entries: Seq<(VKey, VHost)>) -> bool {
    forall|i: int| 0 <= i < entries.len() ==> (#[trigger] entries[i].0) == VKey::Int(i + 1)
}

/// A canonical host value: every leaf is supported, and every table is
/// either a record with string keys or an array keyed `1..=n` in order.
/// This is the shape in which a round trip reproduces a value exactly;
/// a table with integer keys that are not `1..=n` comes back with its keys
/// stringified.
pub open spec fn canonical(h: VHost) -> bool
    decreases h,
{
    match h {
        VHost::Table(entries) => {
            &&& (all_str_keys(entries) || int_keys_in_order(entries))
            &&& forall|i: int| 0 <= i < entries.len() ==> canonical((#[trigger] entries[i]).1)
        },
        VHost::Unsupported(_) => false,
        _ => true,
    }
}

/// Round trip: a canonical host value that nests within the allowed depth
/// converts to an engine value and back to exactly itself. Numbers are
/// classified before they reach the bridge, so a whole-valued number
/// returns as the same whole number however the host first wrote it.
pub proof fn lemma_round_trip(h: VHost, fuel: nat)
    requires
        canonical(h),
        h.depth() <= fuel,
    ensures
        conv_host(h, fuel) is Ok,
        back_host(conv_host(h, fuel)->Ok_0) == h,
    decreases h, 2int,
{
    match h {
        VHost::Table(entries) => {
            let n = entries.len() as int;
            crate::host::lemma_table_depth(entries);
            let f2 = (fuel - 1) as nat;
            if is_sequential(entries) {
                assert(int_keys_in_order(entries)) by {
                    if n > 0 && !int_keys_in_order(entries) {
                        assert(int_key_in_range(entries[0].0, n));
                        assert(!(entries[0].0 is Str));
                        assert(!all_str_keys(entries));
                    }
                }
                lemma_round_trip_list(entries, 1, f2);
                let items = conv_list(entries, 1, f2)->Ok_0;
                assert(back_items(items, 1) == entries.subrange(0, n));
                assert(entries.subrange(0, n) =~= entries);
            } else {
                assert(all_str_keys(entries)) by {
                    if int_keys_in_order(entries) {
                        lemma_in_order_is_sequential(entries);
                    }
                }
                lemma_round_trip_map(entries, f2);
            }
        },
        _ => {},
    }
}

/// Round trip of an array table, for keys `k..=n`: conversion succeeds and
/// converting back reproduces the entries from position `k-1` on.
proof fn lemma_round_trip_list(entries: Seq<(VKey, VHost)>, k: int, fuel: nat)
    requires
        int_keys_in_order(entries),
        forall|i: int| 0 <= i < entries.len() ==> canonical((#[trigger] entries[i]).1),
        forall|i: int| 0 <= i < entries.len() ==> (#[trigger] entries[i]).1.depth() <= fuel,
        1 <= k <= entries.len() + 1,
    ensures
        conv_list(entries, k, fuel) is Ok,
        back_items(conv_list(entries, k, fuel)->Ok_0, k) == entries.subrange(
            k - 1,
            entries.len() as int,
        ),
    decreases entries, entries.len() + 1 - k,
{
    let n = entries.len() as int;
    if k > n {
        assert(conv_list(entries, k, fuel) == Ok::<Seq<VValue>, VConversionError>(Seq::empty()));
        assert(back_items(Seq::empty(), k) == Seq::<(VKey, VHost)>::empty());
        assert(entries.subrange(k - 1, n) =~= Seq::empty());
    } else {
        lemma_in_order_is_sequential(entries);
        lemma_sequential_covers(entries, k);
        lemma_key_index(entries, k);
        let ki = key_index(entries, k);
        assert(entries[ki].0 == VKey::Int(ki + 1));
        assert(ki == k - 1);
        lemma_round_trip(entries[k - 1].1, fuel);
        lemma_round_trip_list(entries, k + 1, fuel);
        let v = conv_host(entries[k - 1].1, fuel)->Ok_0;
        let rest = conv_list(entries, k + 1, fuel)->Ok_0;
        let items = seq![v] + rest;
        assert(conv_list(entries, k, fuel) == Ok::<Seq<VValue>, VConversionError>(items));
        assert(items.drop_first() =~= rest);
        assert(items[0] == v);
        assert(back_items(items, k) == seq![(VKey::Int(k), back_host(v))] + back_items(
            rest,
            k + 1,
        ));
        assert((VKey::Int(k), back_host(v)) == entries[k - 1]);
        assert(seq![entries[k - 1]] + entries.subrange(k, n) =~= entries.subrange(k - 1, n));
    }
}

/// Round trip of a record table: conversion succeeds and converting back
/// reproduces the entries exactly, keys and order included.
proof fn lemma_round_trip_map(entries: Seq<(VKey, VHost)>, fuel: nat)
    requires
        all_str_keys(entries),
        forall|i: int| 0 <= i < entries.len() ==> canonical((#[trigger] entries[i]).1),
        forall|i: int| 0 <= i < entries.len() ==> (#[trigger] entries[i]).1.depth() <= fuel,
    ensures
        conv_map(entries, fuel) is Ok,
        back_entries(conv_map(entries, fuel)->Ok_0) == entries,
    decreases entries, 2int,
{
    if entries.len() == 0 {
        assert(conv_map(entries, fuel) == Ok::<Seq<(Seq<char>, VValue)>, VConversionError>(
            Seq::empty(),
        ));
        assert(back_entries(Seq::empty()) == Seq::<(VKey, VHost)>::empty());
        assert(entries =~= Seq::<(VKey, VHost)>::empty());
    } else {
        assert(entries[0].0 is Str);
        let name = entries[0].0->Str_0;
        assert(conv_key(entries[0].0) == Ok::<Seq<char>, VConversionFault>(name));
        lemma_round_trip(entries[0].1, fuel);
        let tail = entries.drop_first();
        assert forall|i: int| 0 <= i < tail.len() implies (#[trigger] tail[i]) == entries[i
            + 1] by {}
        lemma_round_trip_map(tail, fuel);
        let v = conv_host(entries[0].1, fuel)->Ok_0;
        let rest = conv_map(tail, fuel)->Ok_0;
        let es = seq![(name, v)] + rest;
        assert(conv_map(entries, fuel) == Ok::<Seq<(Seq<char>, VValue)>, VConversionError>(es));
        assert(es.drop_first() =~= rest);
        assert(es[0] == (name, v));
        assert(back_entries(es) == seq![(VKey::Str(name), back_host(v))] + back_entries(rest));
        assert((VKey::Str(name), back_host(v)) == entries[0]);
        assert(seq![entries[0]] + tail =~= entries);
    }
}

/// Does this value satisfy `lists_fit`? Lets a caller test the premise of
/// `value_to_host` before converting.
pub fn value_fits(v: &Value) -> (r: bool)
    ensures
        r == lists_fit(v@),
    decreases v, 0int,
{
    match v {
        Value::List(items) => {
            let ghost vitems = value_items_view(items@);
            proof {
                lemma_value_items_view(items@);
                assert(v@ == VValue::List(vitems));
            }
            if (items.len() as u64) > (i64::MAX as u64) {
                proof {
                    assert(vitems.len() > i64::MAX);
                }
                false
            } else {
                items_fit(items)
            }
        },
        Value::Mapping(entries) => entry_values_fit(entries),
        Value::Node(entries) => entry_values_fit(entries),
        Value::Relationship(entries) => entry_values_fit(entries),
        _ => true,
    }
}

/// Do all values of a list satisfy `lists_fit`?
fn items_fit(items: &Vec<Value>) -> (r: bool)
    ensures
        r == seq_values_fit(value_items_view(items@)),
    decreases items@, 0int,
{
    let ghost vitems = value_items_view(items@);
    let n = items.len();
    let mut i: usize = 0;
    proof {
        lemma_value_items_view(items@);
    }
    while i < n
        invariant
            i <= n,
            n == items.len(),
            vitems == value_items_view(items@),
            vitems.len() == n as int,
            forall|j: int| 0 <= j < i ==> lists_fit(#[trigger] vitems[j]),
        decreases n - i,
    {
        proof {
            lemma_value_items_view(items@);
        }
        if !value_fits(&items[i]) {
            proof {
                assert(!lists_fit(vitems[i as int]));
            }
            return false;
        }
        i += 1;
    }
    true
}

/// Do all entry values satisfy `lists_fit`?
fn entry_values_fit(entries: &Vec<(String, Value)>) -> (r: bool)
    ensures
        r == entry_values_all_fit(value_entries_view(entries@)),
    decreases entries@, 0int,
{
    let ghost ve = value_entries_view(entries@);
    let n = entries.len();
    let mut i: usize = 0;
    proof {
        lemma_value_entries_view(entries@);
    }
    while i < n
        invariant
            i <= n,
            n == entries.len(),
            ve == value_entries_view(entries@),
            ve.len() == n as int,
            forall|j: int| 0 <= j < i ==> lists_fit((#[trigger] ve[j]).1),
        decreases n - i,
    {
        proof {
            lemma_value_entries_view(entries@);
        }
        if !value_fits(&entries[i].1) {
            proof {
                assert(!lists_fit(ve[i as int].1));
            }
            return false;
        }
        i += 1;
    }
    true
}

/// Do all of a row's values satisfy `lists_fit`? The premise of
/// `row_to_host`, testable before converting.
pub fn row_fits_check(row: &crate::value::Row) -> (r: bool)
    ensures
        r == row_fits(row@),
{
    let r = entry_values_fit(&row.cols);
    proof {
        assert(row@.cols == value_entries_view(row.cols@));
    }
    r
}

/// Do all rows satisfy `row_fits`? The premise of `rows_to_host`, testable
/// before converting.
pub fn rows_fit_check(rows: &Vec<crate::value::Row>) -> (r: bool)
    ensures
        r == forall|i: int| 0 <= i < rows@.len() ==> row_fits((#[trigger] rows@[i])@),
{
    let n = rows.len();
    let mut i: usize = 0;
    while i < n
        invariant
            i <= n,
            n == rows@.len(),
            forall|j: int| 0 <= j < i ==> row_fits((#[trigger] rows@[j])@),
        decreases n - i,
    {
        if !row_fits_check(&rows[i]) {
            return false;
        }
        i += 1;
    }
    true
}

/// Every whole number in the host value lies in the engine's 64-bit signed
/// range. Host values that arrive through this crate's executable types
/// satisfy this by construction.
pub open spec fn ranged(h: VHost) -> bool
    decreases h,
{
    match h {
        VHost::Num(n) => match n {
            VNum::Whole(i) => i64::MIN <= i <= i64::MAX,
            VNum::Fractional(_) => true,
        },
        VHost::Table(entries) => forall|i: int|
            0 <= i < entries.len() ==> ranged((#[trigger] entries[i]).1),
        _ => true,
    }
}

/// The mapper keeps values well formed: converting a canonical, well-formed
/// host value in range yields a well-formed engine value — in particular,
/// every map it builds holds each key at most once.
pub proof fn lemma_conversion_wf(h: VHost, fuel: nat)
    requires
        canonical(h),
        h.wf(),
        ranged(h),
        h.depth() <= fuel,
    ensures
        conv_host(h, fuel) is Ok,
        (conv_host(h, fuel)->Ok_0).wf(),
    decreases h, 2int,
{
    match h {
        VHost::Table(entries) => {
            let n = entries.len() as int;
            crate::host::lemma_table_depth(entries);
            let f2 = (fuel - 1) as nat;
            if is_sequential(entries) {
                assert(int_keys_in_order(entries)) by {
                    if n > 0 && !int_keys_in_order(entries) {
                        assert(int_key_in_range(entries[0].0, n));
                        assert(!(entries[0].0 is Str));
                        assert(!all_str_keys(entries));
                    }
                }
                lemma_conv_wf_list(entries, 1, f2);
            } else {
                assert(all_str_keys(entries)) by {
                    if int_keys_in_order(entries) {
                        lemma_in_order_is_sequential(entries);
                    }
                }
                lemma_conv_wf_map(entries, f2);
            }
        },
        _ => {},
    }
}

/// Converting an array table for keys `k..=n` yields well-formed items.
proof fn lemma_conv_wf_list(entries: Seq<(VKey, VHost)>, k: int, fuel: nat)
    requires
        int_keys_in_order(entries),
        forall|i: int| 0 <= i < entries.len() ==> canonical((#[trigger] entries[i]).1),
        forall|i: int| 0 <= i < entries.len() ==> (#[trigger] entries[i]).1.wf(),
        forall|i: int| 0 <= i < entries.len() ==> ranged((#[trigger] entries[i]).1),
        forall|i: int| 0 <= i < entries.len() ==> (#[trigger] entries[i]).1.depth() <= fuel,
        1 <= k <= entries.len() + 1,
    ensures
        conv_list(entries, k, fuel) is Ok,
        forall|i: int|
            0 <= i < conv_list(entries, k, fuel)->Ok_0.len() ==> (#[trigger] conv_list(
                entries,
                k,
                fuel,
            )->Ok_0[i]).wf(),
    decreases entries, entries.len() + 1 - k,
{
    let n = entries.len() as int;
    if k <= n {
        lemma_in_order_is_sequential(entries);
        lemma_sequential_covers(entries, k);
        lemma_key_index(entries, k);
        let ki = key_index(entries, k);
        assert(entries[ki].0 == VKey::Int(ki + 1));
        assert(ki == k - 1);
        lemma_conversion_wf(entries[k - 1].1, fuel);
        lemma_conv_wf_list(entries, k + 1, fuel);
        let v = conv_host(entries[k - 1].1, fuel)->Ok_0;
        let rest = conv_list(entries, k + 1, fuel)->Ok_0;
        let items = seq![v] + rest;
        assert(conv_list(entries, k, fuel) == Ok::<Seq<VValue>, VConversionError>(items));
        assert forall|i: int| 0 <= i < items.len() implies (#[trigger] items[i]).wf() by {
            if i > 0 {
                assert(items[i] == rest[i - 1]);
            }
        }
    }
}

/// Converting a record table yields entries whose keys are exactly the
/// table's string keys, in order, and a well-formed map.
proof fn lemma_conv_wf_map(entries: Seq<(VKey, VHost)>, fuel: nat)
    requires
        all_str_keys(entries),
        forall|i: int, j: int| 0 <= i < j < entries.len() ==> entries[i].0 != entries[j].0,
        forall|i: int| 0 <= i < entries.len() ==> canonical((#[trigger] entries[i]).1),
        forall|i: int| 0 <= i < entries.len() ==> (#[trigger] entries[i]).1.wf(),
        forall|i: int| 0 <= i < entries.len() ==> ranged((#[trigger] entries[i]).1),
        forall|i: int| 0 <= i < entries.len() ==> (#[trigger] entries[i]).1.depth() <= fuel,
    ensures
        conv_map(entries, fuel) is Ok,
        conv_map(entries, fuel)->Ok_0.len() == entries.len(),
        forall|i: int|
            0 <= i < entries.len() ==> (#[trigger] conv_map(entries, fuel)->Ok_0[i]).0
                == entries[i].0->Str_0,
        VValue::entries_wf(conv_map(entries, fuel)->Ok_0),
    decreases entries, 2int,
{
    if entries.len() > 0 {
        assert(entries[0].0 is Str);
        let name = entries[0].0->Str_0;
        lemma_conversion_wf(entries[0].1, fuel);
        let tail = entries.drop_first();
        assert forall|i: int| 0 <= i < tail.len() implies (#[trigger] tail[i]) == entries[i
            + 1] by {}
        lemma_conv_wf_map(tail, fuel);
        let v = conv_host(entries[0].1, fuel)->Ok_0;
        let rest = conv_map(tail, fuel)->Ok_0;
        let es = seq![(name, v)] + rest;
        assert(conv_map(entries, fuel) == Ok::<Seq<(Seq<char>, VValue)>, VConversionError>(es));
        assert forall|i: int| 0 <= i < entries.len() implies (#[trigger] es[i]).0 == entries[i]
            .0->Str_0 by {
            if i > 0 {
                assert(es[i] == rest[i - 1]);
                assert(rest[i - 1].0 == tail[i - 1].0->Str_0);
            }
        }
        assert(VValue::entries_wf(es)) by {
            assert forall|i: int, j: int| 0 <= i < j < es.len() implies es[i].0 != es[j].0 by {
                assert(entries[i].0 is Str && entries[j].0 is Str);
                assert(entries[i].0 != entries[j].0);
                assert(es[i].0 == entries[i].0->Str_0);
                assert(es[j].0 == entries[j].0->Str_0);
            }
            assert forall|i: int| 0 <= i < es.len() implies (#[trigger] es[i].1).wf() by {
                if i > 0 {
                    assert(es[i] == rest[i - 1]);
                    assert(VValue::entries_wf(rest));
                }
            }
        }
    }
}

} // verus!
