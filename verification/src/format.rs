use vstd::prelude::*;
use vstd::string::*;

use crate::model::{PredictionResponse, SelectorView, StationSelector, TrainPrediction, TrainView};

verus! {

broadcast use
    vstd::seq::group_seq_axioms,
    vstd::std_specs::vec::group_vec_axioms,
    vstd::seq_lib::group_filter_ensures;

/// Whether a record belongs to a station's batch: its location code is the
/// station's, and its arrival group carries the second-tier batch tag. The
/// tag's upstream meaning is opaque; the literal is preserved as found.
pub open spec fn is_match(code: Seq<char>, t: TrainView) -> bool {
    t.location_code == code && t.group == "2"@
}

/// The records of a station's batch, in upstream order.
pub open spec fn matching(code: Seq<char>, trains: Seq<TrainView>) -> Seq<TrainView> {
    trains.filter(|t: TrainView| is_match(code, t))
}

/// The records the formatter keeps for one selector: the station's batch,
/// truncated to its first `count` records.
pub open spec fn selected(code: Seq<char>, count: int, trains: Seq<TrainView>) -> Seq<TrainView> {
    let m = matching(code, trains);
    if count <= m.len() {
        m.take(count)
    } else {
        m
    }
}

/// One rendered block: the station code, the destination name, the line, and
/// the minutes value, over three lines with a trailing line break.
pub open spec fn render_block(code: Seq<char>, t: TrainView) -> Seq<char> {
    code + " - Destination: "@ + t.destination_name + "\nLine: "@ + t.line + "\nMin: "@ + t.min
        + "\n"@
}

/// The rendered blocks of a record sequence, concatenated in order.
pub open spec fn blocks_text(code: Seq<char>, rs: Seq<TrainView>) -> Seq<char>
    decreases rs.len(),
{
    if rs.len() == 0 {
        Seq::empty()
    } else {
        render_block(code, rs[0]) + blocks_text(code, rs.drop_first())
    }
}

/// The text rendered for one selector.
pub open spec fn station_text(code: Seq<char>, count: int, trains: Seq<TrainView>) -> Seq<char> {
    blocks_text(code, selected(code, count, trains))
}

/// The whole formatted output: the selectors' texts, concatenated in
/// caller-given selector order.
pub open spec fn format_text(sels: Seq<SelectorView>, trains: Seq<TrainView>) -> Seq<char>
    decreases sels.len(),
{
    if sels.len() == 0 {
        Seq::empty()
    } else {
        station_text(sels[0].code, sels[0].count as int, trains) + format_text(
            sels.drop_first(),
            trains,
        )
    }
}

proof fn lemma_blocks_snoc(code: Seq<char>, rs: Seq<TrainView>, t: TrainView)
    ensures
        blocks_text(code, rs.push(t)) == blocks_text(code, rs) + render_block(code, t),
    decreases rs.len(),
{
    reveal_with_fuel(blocks_text, 3);
    if rs.len() == 0 {
        assert(rs.push(t)[0] == t);
        assert(rs.push(t).drop_first() =~= Seq::<TrainView>::empty());
        assert(blocks_text(code, rs.push(t)) =~= blocks_text(code, rs) + render_block(code, t));
    } else {
        lemma_blocks_snoc(code, rs.drop_first(), t);
        assert(rs.push(t)[0] == rs[0]);
        assert(rs.push(t).drop_first() =~= rs.drop_first().push(t));
        assert(blocks_text(code, rs.push(t)) =~= blocks_text(code, rs) + render_block(code, t));
    }
}

proof fn lemma_format_snoc(sels: Seq<SelectorView>, s: SelectorView, trains: Seq<TrainView>)
    ensures
        format_text(sels.push(s), trains) == format_text(sels, trains) + station_text(
            s.code,
            s.count as int,
            trains,
        ),
    decreases sels.len(),
{
    reveal_with_fuel(format_text, 3);
    if sels.len() == 0 {
        assert(sels.push(s)[0] == s);
        assert(sels.push(s).drop_first() =~= Seq::<SelectorView>::empty());
        assert(format_text(sels.push(s), trains) =~= format_text(sels, trains) + station_text(
            s.code,
            s.count as int,
            trains,
        ));
    } else {
        lemma_format_snoc(sels.drop_first(), s, trains);
        assert(sels.push(s)[0] == sels[0]);
        assert(sels.push(s).drop_first() =~= sels.drop_first().push(s));
        assert(format_text(sels.push(s), trains) =~= format_text(sels, trains) + station_text(
            s.code,
            s.count as int,
            trains,
        ));
    }
}

/// Selection law: for every selector and every decoded record sequence, the
/// formatter's text for that selector consists of the blocks of exactly
/// min(count, number of matching records) records — the earliest matching
/// records, in upstream order — and of no record that does not match.
pub proof fn lemma_station_selection(code: Seq<char>, count: int, trains: Seq<TrainView>)
    requires
        0 <= count,
    ensures
        station_text(code, count, trains) == blocks_text(code, selected(code, count, trains)),
        selected(code, count, trains).len() == vstd::math::min(
            count,
            matching(code, trains).len() as int,
        ),
        forall|i: int|
            0 <= i < selected(code, count, trains).len() ==> #[trigger] selected(
                code,
                count,
                trains,
            )[i] == matching(code, trains)[i],
        forall|i: int|
            0 <= i < selected(code, count, trains).len() ==> is_match(
                code,
                #[trigger] selected(code, count, trains)[i],
            ),
{
    let m = matching(code, trains);
    let sel = selected(code, count, trains);
    assert forall|i: int| 0 <= i < sel.len() implies is_match(code, #[trigger] sel[i]) by {
        assert(sel[i] == m[i]);
    }
}

fn append_block(out: &mut String, code: &String, t: &TrainPrediction)
    ensures
        final(out)@ == old(out)@ + render_block(code@, t@),
{
    out.append(code.as_str());
    out.append(" - Destination: ");
    out.append(t.destination_name.as_str());
    out.append("\nLine: ");
    out.append(t.line.as_str());
    out.append("\nMin: ");
    out.append(t.min.as_str());
    out.append("\n");
    proof {
        assert(out@ =~= old(out)@ + render_block(code@, (*t)@));
    }
}

/// Renders the blocks for one selector: the records whose location code is
/// the selector's station and whose group is the second-tier tag, in upstream
/// order, at most `count` of them.
pub fn format_station(code: &String, count: usize, trains: &Vec<TrainPrediction>) -> (r: String)
    ensures
        r@ == station_text(code@, count as int, trains.deep_view()),
{
    let ghost tv = trains.deep_view();
    let two = String::from_str("2");
    let mut out = String::new();
    let mut taken: usize = 0;
    let mut i: usize = 0;
    while i < trains.len()
        invariant
            i <= trains@.len(),
            taken <= count,
            two@ == "2"@,
            tv == trains.deep_view(),
            tv.len() == trains@.len(),
            taken as int == vstd::math::min(
                count as int,
                matching(code@, tv.take(i as int)).len() as int,
            ),
            out@ == blocks_text(code@, matching(code@, tv.take(i as int)).take(taken as int)),
        decreases trains@.len() - i,
    {
        let t = &trains[i];
        let ghost m_old = matching(code@, tv.take(i as int));
        let ghost m_new = matching(code@, tv.take(i as int + 1));
        proof {
            reveal_with_fuel(Seq::<_>::filter, 2);
            assert(tv[i as int] == (*t)@);
            assert(tv.take(i as int + 1).drop_last() =~= tv.take(i as int));
            assert(tv.take(i as int + 1).last() == tv[i as int]);
        }
        let matched = t.location_code == *code && t.group == two;
        proof {
            assert(matched == is_match(code@, tv[i as int]));
            if matched {
                assert(m_new == m_old.push(tv[i as int]));
            } else {
                assert(m_new == m_old);
            }
        }
        if matched {
            if taken < count {
                proof {
                    assert(taken as int == m_old.len());
                    assert(m_old.take(taken as int) =~= m_old);
                    lemma_blocks_snoc(code@, m_old, tv[i as int]);
                    assert(m_new.take(taken as int + 1) =~= m_old.push(tv[i as int]));
                }
                append_block(&mut out, code, t);
                taken += 1;
            } else {
                proof {
                    assert(taken == count);
                    assert(count as int <= m_old.len());
                    assert(m_new.take(taken as int) =~= m_old.take(taken as int));
                }
            }
        }
        i += 1;
    }
    proof {
        assert(tv.take(tv.len() as int) =~= tv);
        let m = matching(code@, tv);
        if count as int <= m.len() {
            assert(m.take(taken as int) == selected(code@, count as int, tv));
        } else {
            assert(m.take(taken as int) =~= m);
        }
    }
    out
}

/// Renders the whole output: one station text per selector, in the caller's
/// selector order, concatenated.
pub fn format_predictions(selectors: &Vec<StationSelector>, resp: &PredictionResponse) -> (r:
    String)
    ensures
        r@ == format_text(selectors.deep_view(), resp@),
{
    let ghost sv = selectors.deep_view();
    let mut out = String::new();
    let mut s: usize = 0;
    while s < selectors.len()
        invariant
            s <= selectors@.len(),
            sv == selectors.deep_view(),
            sv.len() == selectors@.len(),
            out@ == format_text(sv.take(s as int), resp@),
        decreases selectors@.len() - s,
    {
        let sel = &selectors[s];
        let text = format_station(&sel.code, sel.count, &resp.trains);
        out.append(text.as_str());
        proof {
            assert(sv[s as int] == (*sel)@);
            assert(sv.take(s as int + 1) =~= sv.take(s as int).push(sv[s as int]));
            lemma_format_snoc(sv.take(s as int), sv[s as int], resp@);
        }
        s += 1;
    }
    proof {
        assert(sv.take(sv.len() as int) =~= sv);
    }
    out
}

} // verus!
