use vstd::prelude::*;
use vstd::string::*;

use crate::model::{SelectorView, StationSelector};

verus! {

broadcast use vstd::seq::group_seq_axioms, vstd::std_specs::vec::group_vec_axioms;

/// A selector list's station codes, joined by commas, as the upstream API's
/// path expects them.
pub open spec fn joined_codes(codes: Seq<Seq<char>>) -> Seq<char>
    decreases codes.len(),
{
    if codes.len() == 0 {
        Seq::empty()
    } else if codes.len() == 1 {
        codes[0]
    } else {
        codes[0] + ","@ + joined_codes(codes.drop_first())
    }
}

/// The station codes of a selector list, in selector order.
pub open spec fn codes_of(sels: Seq<SelectorView>) -> Seq<Seq<char>> {
    sels.map_values(|s: SelectorView| s.code)
}

proof fn lemma_joined_snoc(codes: Seq<Seq<char>>, x: Seq<char>)
    ensures
        joined_codes(codes.push(x)) == if codes.len() == 0 {
            x
        } else {
            joined_codes(codes) + ","@ + x
        },
    decreases codes.len(),
{
    reveal_with_fuel(joined_codes, 3);
    if codes.len() == 0 {
        assert(codes.push(x)[0] == x);
    } else if codes.len() == 1 {
        assert(codes.push(x)[0] == codes[0]);
        assert(codes.push(x).drop_first() =~= codes.drop_first().push(x));
        assert(codes.drop_first().push(x)[0] == x);
    } else {
        lemma_joined_snoc(codes.drop_first(), x);
        assert(codes.push(x)[0] == codes[0]);
        assert(codes.push(x).drop_first() =~= codes.drop_first().push(x));
        assert(joined_codes(codes.push(x)) =~= joined_codes(codes) + ","@ + x);
    }
}

/// Joins station codes with commas.
pub fn join_codes(codes: &Vec<String>) -> (r: String)
    ensures
        r@ == joined_codes(codes.deep_view()),
{
    let ghost cv = codes.deep_view();
    let mut out = String::new();
    let mut i: usize = 0;
    while i < codes.len()
        invariant
            i <= codes@.len(),
            cv == codes.deep_view(),
            cv.len() == codes@.len(),
            out@ == joined_codes(cv.take(i as int)),
        decreases codes@.len() - i,
    {
        if i > 0 {
            out.append(",");
        }
        out.append(codes[i].as_str());
        proof {
            assert(cv[i as int] == codes@[i as int]@);
            assert(cv.take(i as int + 1) =~= cv.take(i as int).push(cv[i as int]));
            lemma_joined_snoc(cv.take(i as int), cv[i as int]);
            assert(out@ =~= joined_codes(cv.take(i as int + 1)));
        }
        i += 1;
    }
    proof {
        assert(cv.take(cv.len() as int) =~= cv);
    }
    out
}

/// The station codes of a selector list, in order, for building the upstream
/// path.
pub fn selector_codes(selectors: &Vec<StationSelector>) -> (r: Vec<String>)
    ensures
        r.deep_view() == codes_of(selectors.deep_view()),
{
    let ghost sv = selectors.deep_view();
    let mut out: Vec<String> = Vec::new();
    let mut i: usize = 0;
    while i < selectors.len()
        invariant
            i <= selectors@.len(),
            sv == selectors.deep_view(),
            sv.len() == selectors@.len(),
            out@.len() == i,
            forall|j: int| 0 <= j < i ==> (#[trigger] out@[j])@ == sv[j].code,
        decreases selectors@.len() - i,
    {
        out.push(selectors[i].code.clone());
        proof {
            assert(sv[i as int] == selectors@[i as int]@);
            assert(out@[i as int]@ == sv[i as int].code);
        }
        i += 1;
    }
    proof {
        assert forall|j: int| 0 <= j < out@.len() implies #[trigger] out.deep_view()[j]
            == codes_of(sv)[j] by {
            assert(out.deep_view()[j] == out@[j].deep_view());
            assert(out@[j]@ == sv[j].code);
        }
        assert(out.deep_view() =~= codes_of(sv));
    }
    out
}

/// Builds the upstream prediction URL: the endpoint base followed by the
/// comma-joined station codes.
pub fn build_prediction_url(base: &String, codes: &Vec<String>) -> (r: String)
    ensures
        r@ == base@ + joined_codes(codes.deep_view()),
{
    let mut out = String::new();
    out.append(base.as_str());
    let joined = join_codes(codes);
    out.append(joined.as_str());
    out
}

} // verus!
