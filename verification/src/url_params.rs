//! Query strings of REST request URLs.

use vstd::prelude::*;
use vstd::string::*;

use crate::text::push_char;

verus! {

/// A query parameter as plain text: its name, and its value if it has one.
pub type ParamView = (Seq<char>, Option<Seq<char>>);

/// The text of a parameter list.
pub open spec fn param_views(params: Seq<(String, Option<String>)>) -> Seq<ParamView> {
    params.map_values(
        |p: (String, Option<String>)|
            (
                p.0@,
                match p.1 {
                    Some(v) => Some(v@),
                    None => None,
                },
            ),
    )
}

/// The query string of a parameter list: each parameter that has a value
/// adds `name=value`, the first of them after `?` and every later one
/// after `&`; parameters without a value add nothing.
pub open spec fn query_text(params: Seq<ParamView>) -> Seq<char>
    decreases params.len(),
{
    if params.len() == 0 {
        Seq::empty()
    } else {
        let prev = query_text(params.drop_last());
        match params.last().1 {
            Some(value) => prev + seq![
                if prev.len() == 0 {
                    '?'
                } else {
                    '&'
                },
            ] + params.last().0 + seq!['='] + value,
            None => prev,
        }
    }
}

/// Appends to `url` the query string of `params`.
pub fn add_params_to_url(url: String, params: Vec<(String, Option<String>)>) -> (res: String)
    ensures
        res@ == url@ + query_text(param_views(params@)),
{
    let ghost pv = param_views(params@);
    let mut url_params = String::new();
    let mut separator = '?';
    let mut i: usize = 0;
    assert(pv.take(0) =~= Seq::<ParamView>::empty());
    while i < params.len()
        invariant
            i <= params.len(),
            pv == param_views(params@),
            url_params@ == query_text(pv.take(i as int)),
            separator == '?' || (separator == '&' && url_params@.len() > 0),
        decreases params.len() - i,
    {
        assert(pv.take(i + 1).drop_last() =~= pv.take(i as int));
        match &params[i].1 {
            Some(value) => {
                if separator == '?' && !url_params.as_str().is_empty() {
                    separator = '&';
                }
                push_char(&mut url_params, separator);
                url_params.append(params[i].0.as_str());
                push_char(&mut url_params, '=');
                url_params.append(value.as_str());
            },
            None => {},
        }
        i = i + 1;
    }
    assert(pv.take(params.len() as int) =~= pv);
    let mut res = url;
    res.append(url_params.as_str());
    res
}

/// The parameters of a list that have a value, in order.
pub open spec fn present_params(params: Seq<ParamView>) -> Seq<ParamView>
    decreases params.len(),
{
    if params.len() == 0 {
        Seq::empty()
    } else {
        let prev = present_params(params.drop_last());
        if params.last().1 is Some {
            prev.push(params.last())
        } else {
            prev
        }
    }
}

/// Parameters without a value leave the query string as the parameters
/// with a value alone make it.
pub proof fn lemma_absent_params_add_nothing(params: Seq<ParamView>)
    ensures
        query_text(params) == query_text(present_params(params)),
    decreases params.len(),
{
    if params.len() > 0 {
        lemma_absent_params_add_nothing(params.drop_last());
        let prev = present_params(params.drop_last());
        if params.last().1 is Some {
            assert(prev.push(params.last()).drop_last() =~= prev);
        }
    }
}

/// The query string is empty exactly when no parameter has a value, and
/// otherwise it starts with `?`.
pub proof fn lemma_query_starts_with_question_mark(params: Seq<ParamView>)
    ensures
        query_text(params).len() == 0 <==> (forall|i: int|
            0 <= i < params.len() ==> #[trigger] params[i].1 is None),
        query_text(params).len() > 0 ==> query_text(params)[0] == '?',
    decreases params.len(),
{
    if params.len() > 0 {
        let init = params.drop_last();
        lemma_query_starts_with_question_mark(init);
        if query_text(params).len() == 0 {
            assert forall|i: int| 0 <= i < params.len() implies #[trigger] params[i].1 is None by {
                if i < params.len() - 1 {
                    assert(init[i] == params[i]);
                }
            }
        }
        if forall|i: int| 0 <= i < params.len() ==> #[trigger] params[i].1 is None {
            assert forall|i: int| 0 <= i < init.len() implies #[trigger] init[i].1 is None by {
                assert(init[i] == params[i]);
            }
            assert(params[params.len() - 1].1 is None);
        }
    }
}

} // verus!
