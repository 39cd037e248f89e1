//! The host's dynamic value model, as it reaches the bridge.
//!
//! The host hands the bridge plain data: every number arrives already split
//! into a whole number or the raw bits of a number with a non-zero fractional
//! part, because this crate holds no floating-point code. Host types the
//! mapper does not support arrive with their type name, so that a conversion
//! error can name them.

use vstd::prelude::*;

verus! {

/// A host number, classified at the boundary.
///
/// `Whole` is a number with zero fractional part, already narrowed to an
/// integer. `Fractional` carries the IEEE-754 bit pattern of a number whose
/// fractional part is non-zero; the bridge never interprets the bits.
#[derive(Clone, Copy, PartialEq, Eq, Structural, Debug)]
pub enum HostNumber {
    Whole(i64),
    Fractional(u64),
}

/// Spec-level mirror of `HostNumber`.
pub enum VNum {
    Whole(int),
    Fractional(u64),
}

impl View for HostNumber {
    type V = VNum;

    open spec fn view(&self) -> VNum {
        match self {
            HostNumber::Whole(i) => VNum::Whole(*i as int),
            HostNumber::Fractional(b) => VNum::Fractional(*b),
        }
    }
}

/// A key of a host table. Numeric keys with zero fractional part arrive as
/// `Int`; string keys and stringified fractional keys as `Str`; a key of any
/// other host type arrives as `Unsupported` with its type name.
#[derive(Clone, PartialEq, Eq, Debug)]
pub enum HostKey {
    Int(i64),
    Str(String),
    Unsupported(String),
}

/// Spec-level mirror of `HostKey`.
pub enum VKey {
    Int(int),
    Str(Seq<char>),
    Unsupported(Seq<char>),
}

impl View for HostKey {
    type V = VKey;

    open spec fn view(&self) -> VKey {
        match self {
            HostKey::Int(i) => VKey::Int(*i as int),
            HostKey::Str(s) => VKey::Str(s@),
            HostKey::Unsupported(t) => VKey::Unsupported(t@),
        }
    }
}

/// A host value: nil, a scalar, a table of key/value entries, or a value of
/// a host type the mapper does not support, carrying its type name.
///
/// A table that came from the host never holds two entries with the same
/// key; `VHost::wf` states that.
#[derive(PartialEq, Eq, Debug)]
pub enum HostValue {
    Nil,
    Bool(bool),
    Num(HostNumber),
    Str(String),
    Table(Vec<(HostKey, HostValue)>),
    Unsupported(String),
}

/// Spec-level mirror of `HostValue`.
pub enum VHost {
    Nil,
    Bool(bool),
    Num(VNum),
    Str(Seq<char>),
    Table(Seq<(VKey, VHost)>),
    Unsupported(Seq<char>),
}

/// The view of a host value, defined structurally.
pub open spec fn host_view(h: HostValue) -> VHost
    decreases h,
{
    match h {
        HostValue::Nil => VHost::Nil,
        HostValue::Bool(b) => VHost::Bool(b),
        HostValue::Num(n) => VHost::Num(n@),
        HostValue::Str(s) => VHost::Str(s@),
        HostValue::Table(entries) => VHost::Table(host_entries_view(entries@)),
        HostValue::Unsupported(t) => VHost::Unsupported(t@),
    }
}

/// The view of a sequence of host table entries, entry by entry.
pub open spec fn host_entries_view(s: Seq<(HostKey, HostValue)>) -> Seq<(VKey, VHost)>
    decreases s,
{
    if s.len() == 0 {
        Seq::empty()
    } else {
        seq![(s[0].0@, host_view(s[0].1))] + host_entries_view(s.drop_first())
    }
}

impl View for HostValue {
    type V = VHost;

    open spec fn view(&self) -> VHost {
        host_view(*self)
    }
}

/// `host_entries_view` maps index by index.
pub broadcast proof fn lemma_host_entries_view(s: Seq<(HostKey, HostValue)>)
    ensures
        #[trigger] host_entries_view(s).len() == s.len(),
        forall|i: int|
            0 <= i < s.len() ==> host_entries_view(s)[i] == (s[i].0@, s[i].1@),
    decreases s,
{
    if s.len() > 0 {
        lemma_host_entries_view(s.drop_first());
        assert forall|i: int|
            0 <= i < s.len() implies host_entries_view(s)[i] == (s[i].0@, s[i].1@) by {
            if i > 0 {
                assert(host_entries_view(s)[i] == host_entries_view(s.drop_first())[i - 1]);
                assert(s.drop_first()[i - 1] == s[i]);
            }
        }
    }
}

impl VHost {
    /// A host value is well formed when no table holds two entries with the
    /// same key. Host tables satisfy this by construction.
    pub open spec fn wf(self) -> bool
        decreases self,
    {
        match self {
            VHost::Table(entries) => {
                &&& forall|i: int, j: int|
                    0 <= i < j < entries.len() ==> entries[i].0 != entries[j].0
                &&& forall|i: int|
                    0 <= i < entries.len() ==> (#[trigger] entries[i].1).wf()
            },
            _ => true,
        }
    }

    /// Nesting depth: scalars sit at depth zero, a table one above its
    /// deepest entry value.
    pub open spec fn depth(self) -> nat
        decreases self,
    {
        match self {
            VHost::Table(entries) => 1 + table_depth(entries),
            _ => 0,
        }
    }
}

/// The depth of the deepest value among table entries, zero for none.
pub open spec fn table_depth(s: Seq<(VKey, VHost)>) -> nat
    decreases s,
{
    if s.len() == 0 {
        0
    } else {
        let first = s[0].1.depth();
        let rest = table_depth(s.drop_first());
        if first >= rest {
            first
        } else {
            rest
        }
    }
}

/// No entry value of a table is deeper than the deepest among them.
pub proof fn lemma_table_depth(s: Seq<(VKey, VHost)>)
    ensures
        forall|i: int| 0 <= i < s.len() ==> (#[trigger] s[i].1).depth() <= table_depth(s),
    decreases s,
{
    if s.len() > 0 {
        lemma_table_depth(s.drop_first());
        assert forall|i: int| 0 <= i < s.len() implies (#[trigger] s[i].1).depth()
            <= table_depth(s) by {
            if i > 0 {
                assert(s.drop_first()[i - 1] == s[i]);
            }
        }
    }
}

} // verus!
