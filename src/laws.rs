//! What holds of the library across all inputs.

use vstd::prelude::*;
use vstd::utf8::{decode_utf8, valid_utf8};
use crate::dbt::{config_ok, deps_ok, is_required, node_ok, required_text};
use crate::fields::{opt_text, opt_texts};
use crate::json::{field, parsed_json, JsonValue};
use crate::models::{is_model, lookup, matches_id, names_node};
use crate::text::{
    cleaned, joined, keeps_line, kept_lines, line_scan, normalized, output_text, strip_cr,
    text_lines, trim,
};

verus! {

proof fn lemma_scan_plain_tail(p: Seq<char>, b: Seq<char>)
    requires
        forall|i: int| 0 <= i < b.len() ==> b[i] != '\n',
    ensures
        line_scan(p + b) == (line_scan(p).0, line_scan(p).1 + b),
    decreases b.len(),
{
    if b.len() == 0 {
        assert(p + b =~= p);
        assert(line_scan(p).1 + b =~= line_scan(p).1);
    } else {
        lemma_scan_plain_tail(p, b.drop_last());
        assert((p + b).drop_last() =~= p + b.drop_last());
        assert((p + b).last() == b.last());
        assert(line_scan(p).1 + b.drop_last() + seq![b.last()] =~= line_scan(p).1 + b);
    }
}

proof fn lemma_filter_keeps_all(ls: Seq<Seq<char>>)
    requires
        forall|i: int| 0 <= i < ls.len() ==> keeps_line(#[trigger] ls[i]),
    ensures
        ls.filter(|l: Seq<char>| keeps_line(l)) == ls,
    decreases ls.len(),
{
    if ls.len() > 0 {
        lemma_filter_keeps_all(ls.drop_last());
        ls.drop_last().lemma_filter_push(ls.last(), |l: Seq<char>| keeps_line(l));
        assert(ls.drop_last().push(ls.last()) =~= ls);
    }
}

/// Output that is one line holding a single JSON object passes through the
/// normalizer unchanged: the cleaned text is that line, and the document is
/// what serde_json reads from it.
pub proof fn single_object_passes_through(output: Seq<u8>)
    requires
        valid_utf8(output),
        forall|i: int| 0 <= i < decode_utf8(output).len() ==> decode_utf8(output)[i] != '\n',
        trim(decode_utf8(output)).len() > 0,
        trim(decode_utf8(output))[0] == '{',
    ensures
        cleaned(output_text(output)) == decode_utf8(output),
        normalized(output) == parsed_json(decode_utf8(output)),
{
    let s = decode_utf8(output);
    lemma_scan_plain_tail(Seq::empty(), s);
    assert(Seq::<char>::empty() + s =~= s);
    assert(line_scan(Seq::<char>::empty()) == (Seq::<Seq<char>>::empty(), Seq::<char>::empty()));
    assert(s.len() > 0) by {
        if s.len() == 0 {
            assert(trim(s) == s);
        }
    }
    assert(text_lines(s) == seq![s]);
    assert(keeps_line(s));
    lemma_filter_keeps_all(seq![s]);
    assert(kept_lines(s) == seq![s]);
}

proof fn lemma_scan_joined(lines: Seq<Seq<char>>, k: int)
    requires
        1 <= k <= lines.len(),
        forall|i: int|
            0 <= i < lines.len() ==> forall|c: int|
                0 <= c < (#[trigger] lines[i]).len() ==> lines[i][c] != '\n',
        forall|i: int|
            0 <= i < lines.len() ==> !((#[trigger] lines[i]).len() > 0 && lines[i].last() == '\r'),
    ensures
        line_scan(joined(lines.take(k), '\n')) == (lines.take(k - 1), lines[k - 1]),
    decreases k,
{
    if k == 1 {
        assert(joined(lines.take(1), '\n') == lines[0]);
        lemma_scan_plain_tail(Seq::empty(), lines[0]);
        assert(Seq::<char>::empty() + lines[0] =~= lines[0]);
        assert(lines.take(0) =~= Seq::<Seq<char>>::empty());
    } else {
        lemma_scan_joined(lines, k - 1);
        let t = lines.take(k);
        assert(t.drop_last() =~= lines.take(k - 1));
        let p = joined(lines.take(k - 1), '\n').push('\n');
        assert(joined(t, '\n') == p + lines[k - 1]);
        assert(p.drop_last() =~= joined(lines.take(k - 1), '\n'));
        assert(strip_cr(lines[k - 2]) == lines[k - 2]);
        assert(line_scan(p) == (lines.take(k - 2).push(lines[k - 2]), Seq::<char>::empty()));
        assert(lines.take(k - 2).push(lines[k - 2]) =~= lines.take(k - 1));
        lemma_scan_plain_tail(p, lines[k - 1]);
        assert(Seq::<char>::empty() + lines[k - 1] =~= lines[k - 1]);
    }
}

/// Output made of two or more lines, each a JSON fragment, becomes one
/// array: the cleaned text is `[`, the lines in their order separated by
/// `,`, and `]`.
pub proof fn fragments_become_array(lines: Seq<Seq<char>>)
    requires
        lines.len() >= 2,
        forall|i: int|
            0 <= i < lines.len() ==> forall|c: int|
                0 <= c < (#[trigger] lines[i]).len() ==> lines[i][c] != '\n',
        forall|i: int|
            0 <= i < lines.len() ==> !((#[trigger] lines[i]).len() > 0 && lines[i].last() == '\r'),
        forall|i: int| 0 <= i < lines.len() ==> keeps_line(#[trigger] lines[i]),
    ensures
        kept_lines(joined(lines, '\n')) == lines,
        cleaned(joined(lines, '\n')) == seq!['['] + joined(lines, ',') + seq![']'],
{
    let n = lines.len() as int;
    lemma_scan_joined(lines, n);
    assert(lines.take(n) =~= lines);
    let last = lines[n - 1];
    assert(last.len() > 0) by {
        assert(keeps_line(last));
        if last.len() == 0 {
            assert(trim(last) == last);
        }
    }
    assert(lines.take(n - 1).push(last) =~= lines);
    assert(text_lines(joined(lines, '\n')) == lines);
    lemma_filter_keeps_all(lines);
}

/// A descriptor that lacks `unique_id`, `name` or `resource_type` is
/// refused.
pub proof fn missing_required_is_refused(j: JsonValue, key: Seq<char>)
    requires
        is_required(key),
        field(j, key) is None,
    ensures
        !node_ok(j),
{
}

/// A descriptor with its three required texts, its other members of the
/// right kind, and no settings at all (no `config`, or an empty one) is
/// accepted.
pub proof fn no_settings_is_accepted(j: JsonValue)
    requires
        required_text(field(j, "unique_id"@)) is Some,
        required_text(field(j, "name"@)) is Some,
        required_text(field(j, "resource_type"@)) is Some,
        opt_text(field(j, "alias"@)) is Some,
        opt_text(field(j, "package_name"@)) is Some,
        opt_text(field(j, "original_file_path"@)) is Some,
        opt_texts(field(j, "tags"@)) is Some,
        deps_ok(field(j, "depends_on"@)),
        field(j, "config"@) is None || field(j, "config"@) == Some(
            JsonValue::Object(Seq::empty()),
        ),
    ensures
        node_ok(j),
{
    assert(config_ok(field(j, "config"@)));
}

/// Where no model is under `id` itself but one's identifier ends with `.`
/// and `id`, the lookup finds such a model.
pub proof fn suffix_lookup_finds(m: Seq<(Seq<char>, JsonValue)>, id: Seq<char>, k: int)
    requires
        0 <= k < m.len(),
        is_model(m[k].1),
        names_node(m[k].0, id),
        forall|i: int| 0 <= i < m.len() ==> !matches_id(#[trigger] m[i], id, true),
    ensures
        lookup(m, id) matches Some(i) && 0 <= i < m.len() && is_model(m[i].1) && names_node(
            m[i].0,
            id,
        ),
{
    crate::models::lemma_first_match_bounds(m, id, true);
    crate::models::lemma_first_match_bounds(m, id, false);
    assert(matches_id(m[k], id, false));
}

/// Where no model is under `id` and none's identifier ends with `.` and
/// `id`, the lookup finds nothing, and a query says `NotFound`.
pub proof fn unmatched_lookup_fails(m: Seq<(Seq<char>, JsonValue)>, id: Seq<char>)
    requires
        forall|i: int|
            0 <= i < m.len() ==> !matches_id(#[trigger] m[i], id, true) && !matches_id(
                m[i],
                id,
                false,
            ),
    ensures
        lookup(m, id) is None,
{
    crate::models::lemma_first_match_bounds(m, id, true);
    crate::models::lemma_first_match_bounds(m, id, false);
}

} // verus!
