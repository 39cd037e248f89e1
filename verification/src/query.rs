//! The immutable query: text plus an ordered set of named parameters,
//! built through the value mapper. A structurally invalid parameter aborts
//! construction with an error naming the offending type and path, and the
//! query is never sent to the engine.

use vstd::prelude::*;

use crate::errors::ConversionError;
use crate::errors::VPathSeg;
use crate::host::HostKey;
use crate::host::HostValue;
use crate::host::host_entries_view;
use crate::mapper::MAX_DEPTH;
use crate::mapper::conv_host;
use crate::mapper::conv_map;
use crate::value::VValue;
use crate::value::Value;
use crate::value::value_entries_view;

verus! {

/// An immutable query: its text and its parameters in insertion order. The
/// fields are private and no method changes them: a query, once built, can
/// be shared and run any number of times.
#[derive(Debug)]
pub struct Query {
    text: String,
    params: Vec<(String, Value)>,
}

/// Spec-level mirror of `Query`.
pub struct VQuery {
    pub text: Seq<char>,
    pub params: Seq<(Seq<char>, VValue)>,
}

impl View for Query {
    type V = VQuery;

    closed spec fn view(&self) -> VQuery {
        VQuery { text: self.text@, params: value_entries_view(self.params@) }
    }
}

impl Query {
    /// A query with no parameters.
    pub fn new(text: String) -> (q: Query)
        ensures
            q@.text == text@,
            q@.params == Seq::<(Seq<char>, VValue)>::empty(),
    {
        Query { text, params: Vec::new() }
    }

    /// The query text.
    pub fn text(&self) -> (t: &String)
        ensures
            t@ == self@.text,
    {
        &self.text
    }

    /// The parameters, in insertion order.
    pub fn params(&self) -> (p: &Vec<(String, Value)>)
        ensures
            value_entries_view(p@) == self@.params,
    {
        &self.params
    }

    /// Add one named parameter, converting the host value through the
    /// mapper. On a value the mapper refuses, the error names the offending
    /// type, under the parameter's name, and the builder is gone: no query
    /// with a bad parameter ever exists.
    pub fn param(self, name: String, value: &HostValue) -> (r: Result<Query, ConversionError>)
        ensures
            ({
                let conv = conv_host(value@, (MAX_DEPTH - 1) as nat);
                &&& (r is Ok) == (conv is Ok)
                &&& (r matches Ok(q) ==> {
                    &&& q@.text == self@.text
                    &&& q@.params == self@.params.push((name@, conv->Ok_0))
                })
                &&& (r matches Err(e) ==> e@.path == seq![VPathSeg::Key(name@)]
                    + conv->Err_0.path && e@.fault == conv->Err_0.fault)
            }),
    {
        match crate::mapper::host_to_param_value(value) {
            Ok(v) => {
                let mut q = self;
                let ghost old_params = q.params@;
                q.params.push((name, v));
                proof {
                    crate::value::lemma_value_entries_view(q.params@);
                    crate::value::lemma_value_entries_view(old_params);
                    assert(value_entries_view(q.params@) =~= value_entries_view(old_params).push(
                        (q.params@.last().0@, q.params@.last().1@),
                    ));
                }
                Ok(q)
            },
            Err(e) => Err(crate::mapper::prefix_error(crate::errors::PathSeg::Key(name), e)),
        }
    }
}

impl Query {
    /// An identical query: same text, same parameters. A query, once built,
    /// can be shared and run any number of times; this hands a caller its
    /// own copy to run while the original stays in use.
    pub fn duplicate(&self) -> (q: Query)
        ensures
            q@ == self@,
    {
        Query {
            text: self.text.clone(),
            params: crate::value::clone_entries(&self.params),
        }
    }
}

/// Build a query from its text and an optional table of named parameters,
/// converted through the mapper in entry order. A bad parameter value or
/// key aborts with the first error in entry order, and no query exists.
pub fn new_query(text: String, params: Option<&Vec<(HostKey, HostValue)>>) -> (r: Result<
    Query,
    ConversionError,
>)
    ensures
        params is None ==> (r matches Ok(q) && q@.text == text@ && q@.params == Seq::<
            (Seq<char>, VValue),
        >::empty()),
        (params matches Some(t) ==> {
            let conv = conv_map(host_entries_view(t@), (MAX_DEPTH - 1) as nat);
            &&& (r is Ok) == (conv is Ok)
            &&& (r matches Ok(q) ==> q@.text == text@ && q@.params == conv->Ok_0)
            &&& (r matches Err(e) ==> Err::<Seq<(Seq<char>, VValue)>, crate::errors::VConversionError>(e@) == conv)
        }),
{
    match params {
        None => Ok(Query::new(text)),
        Some(t) => match crate::mapper::convert_map_entries(t, MAX_DEPTH - 1) {
            Ok(entries) => Ok(Query { text, params: entries }),
            Err(e) => Err(e),
        },
    }
}

/// The trivial query that validates a fresh connection, fail-fast, before
/// any handle is handed to the host.
pub fn validation_query() -> (q: Query)
    ensures
        q@.text == "RETURN 1"@,
        q@.params == Seq::<(Seq<char>, VValue)>::empty(),
{
    Query::new("RETURN 1".to_owned())
}

} // verus!
