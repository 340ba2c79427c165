//! Text handling for the build tool's output: lines as `str::lines` cuts
//! them, trimming as `str::trim` does, and the filter that keeps what looks
//! like JSON.

use vstd::prelude::*;
use vstd::utf8::{decode_utf8, valid_utf8};
use crate::error::DbtError;
use crate::json::{parse_json, parsed_json, Json};

verus! {

/// Relies on str::chars: the characters of the text, in order.
#[verifier::external_body]
pub(crate) fn chars_of(s: &str) -> (r: Vec<char>)
    ensures
        r@ == s@,
{
    s.chars().collect()
}

/// Relies on collecting chars into a String: the text of those characters.
#[verifier::external_body]
pub(crate) fn text_from(cs: &[char]) -> (r: String)
    ensures
        r@ == cs@,
{
    cs.iter().collect()
}

/// Relies on std::str::from_utf8: the decoded text of well-formed UTF-8,
/// an error for anything else.
#[verifier::external_body]
pub(crate) fn decode_text(bytes: &[u8]) -> (r: Option<String>)
    ensures
        match r {
            Some(s) => valid_utf8(bytes@) && s@ == decode_utf8(bytes@),
            None => !valid_utf8(bytes@),
        },
{
    std::str::from_utf8(bytes).ok().map(|s| s.to_string())
}

/// The text of the tool's output: its characters where it is UTF-8, and
/// nothing otherwise.
pub open spec fn output_text(bytes: Seq<u8>) -> Seq<char> {
    if valid_utf8(bytes) {
        decode_utf8(bytes)
    } else {
        Seq::empty()
    }
}

/// `char::is_whitespace`: the characters of Unicode's White_Space property.
pub open spec fn is_space(c: char) -> bool {
    let u = c as u32;
    (0x09 <= u && u <= 0x0d) || u == 0x20 || u == 0x85 || u == 0xa0 || u == 0x1680 || (0x2000
        <= u && u <= 0x200a) || u == 0x2028 || u == 0x2029 || u == 0x202f || u == 0x205f || u
        == 0x3000
}

pub fn is_space_char(c: char) -> (r: bool)
    ensures
        r == is_space(c),
{
    let u = c as u32;
    (0x09 <= u && u <= 0x0d) || u == 0x20 || u == 0x85 || u == 0xa0 || u == 0x1680 || (0x2000
        <= u && u <= 0x200a) || u == 0x2028 || u == 0x2029 || u == 0x202f || u == 0x205f || u
        == 0x3000
}

/// A line without the `\r` of a `\r\n` ending.
pub open spec fn strip_cr(line: Seq<char>) -> Seq<char> {
    if line.len() > 0 && line.last() == '\r' {
        line.drop_last()
    } else {
        line
    }
}

/// Reading a text from the left: the lines ended so far, and the line under
/// way.
pub open spec fn line_scan(s: Seq<char>) -> (Seq<Seq<char>>, Seq<char>)
    decreases s.len(),
{
    if s.len() == 0 {
        (Seq::empty(), Seq::empty())
    } else {
        let (done, cur) = line_scan(s.drop_last());
        if s.last() == '\n' {
            (done.push(strip_cr(cur)), Seq::empty())
        } else {
            (done, cur.push(s.last()))
        }
    }
}

/// The lines of a text, as `str::lines` gives them: cut at each `\n`, a
/// `\r` before it dropped, and no empty line after a final `\n`.
pub open spec fn text_lines(s: Seq<char>) -> Seq<Seq<char>> {
    let (done, cur) = line_scan(s);
    if cur.len() > 0 {
        done.push(cur)
    } else {
        done
    }
}

pub open spec fn trim_start(l: Seq<char>) -> Seq<char>
    decreases l.len(),
{
    if l.len() > 0 && is_space(l[0]) {
        trim_start(l.drop_first())
    } else {
        l
    }
}

pub open spec fn trim_end(l: Seq<char>) -> Seq<char>
    decreases l.len(),
{
    if l.len() > 0 && is_space(l.last()) {
        trim_end(l.drop_last())
    } else {
        l
    }
}

/// A line without the white space at either end.
pub open spec fn trim(l: Seq<char>) -> Seq<char> {
    trim_end(trim_start(l))
}

/// A copy of `cs[from..to]`.
fn copy_range(cs: &Vec<char>, from: usize, to: usize) -> (r: Vec<char>)
    requires
        from <= to <= cs.len(),
    ensures
        r@ == cs@.subrange(from as int, to as int),
{
    let mut out: Vec<char> = Vec::new();
    let mut i: usize = from;
    while i < to
        invariant
            from <= i <= to <= cs.len(),
            out@ == cs@.subrange(from as int, i as int),
        decreases to - i,
    {
        out.push(cs[i]);
        proof {
            assert(out@ =~= cs@.subrange(from as int, i + 1));
        }
        i = i + 1;
    }
    out
}

/// The lines of a text, cut as `text_lines` says.
pub fn split_lines(cs: &Vec<char>) -> (r: Vec<Vec<char>>)
    ensures
        r@.map_values(|l: Vec<char>| l@) == text_lines(cs@),
{
    let mut done: Vec<Vec<char>> = Vec::new();
    let mut start: usize = 0;
    let mut i: usize = 0;
    proof {
        assert(cs@.take(0) =~= Seq::<char>::empty());
    }
    while i < cs.len()
        invariant
            start <= i <= cs.len(),
            line_scan(cs@.take(i as int)) == (
                done@.map_values(|l: Vec<char>| l@),
                cs@.subrange(start as int, i as int),
            ),
        decreases cs.len() - i,
    {
        proof {
            assert(cs@.take(i + 1).drop_last() =~= cs@.take(i as int));
            assert(cs@.take(i + 1).last() == cs@[i as int]);
        }
        if cs[i] == '\n' {
            let mut end = i;
            if end > start && cs[end - 1] == '\r' {
                end = end - 1;
            }
            let line = copy_range(cs, start, end);
            proof {
                let cur = cs@.subrange(start as int, i as int);
                assert(strip_cr(cur) =~= line@);
            }
            let ghost before = done@;
            done.push(line);
            proof {
                assert(done@.map_values(|l: Vec<char>| l@) =~= before.map_values(|l: Vec<char>| l@).push(line@));
            }
            start = i + 1;
            proof {
                assert(cs@.subrange(start as int, i + 1) =~= Seq::<char>::empty());
            }
        } else {
            proof {
                assert(cs@.subrange(start as int, i + 1) =~= cs@.subrange(start as int, i as int).push(cs@[i as int]));
            }
        }
        i = i + 1;
    }
    proof {
        assert(cs@.take(cs.len() as int) =~= cs@);
    }
    if start < cs.len() {
        let line = copy_range(cs, start, cs.len());
        let ghost before = done@;
        done.push(line);
        proof {
            assert(done@.map_values(|l: Vec<char>| l@) =~= before.map_values(|l: Vec<char>| l@).push(line@));
        }
    }
    done
}


proof fn lemma_trim_start_skip(l: Seq<char>, a: int)
    requires
        0 <= a < l.len(),
        is_space(l[a]),
    ensures
        trim_start(l.subrange(a, l.len() as int)) == trim_start(l.subrange(a + 1, l.len() as int)),
{
    assert(l.subrange(a, l.len() as int).drop_first() =~= l.subrange(a + 1, l.len() as int));
}

proof fn lemma_trim_end_cut(l: Seq<char>, a: int, b: int)
    requires
        0 <= a < b <= l.len(),
        is_space(l[b - 1]),
    ensures
        trim_end(l.subrange(a, b)) == trim_end(l.subrange(a, b - 1)),
{
    assert(l.subrange(a, b).drop_last() =~= l.subrange(a, b - 1));
}

/// The bounds of a line without the white space at its ends.
pub fn trim_bounds(l: &Vec<char>) -> (r: (usize, usize))
    ensures
        r.0 <= r.1 <= l.len(),
        trim(l@) == l@.subrange(r.0 as int, r.1 as int),
{
    let mut a: usize = 0;
    proof {
        assert(l@.subrange(0, l.len() as int) =~= l@);
    }
    while a < l.len() && is_space_char(l[a])
        invariant
            a <= l.len(),
            trim_start(l@) == trim_start(l@.subrange(a as int, l.len() as int)),
        decreases l.len() - a,
    {
        proof {
            lemma_trim_start_skip(l@, a as int);
        }
        a = a + 1;
    }
    let ghost rest = l@.subrange(a as int, l.len() as int);
    assert(trim_start(rest) == rest);
    let mut b: usize = l.len();
    while b > a && is_space_char(l[b - 1])
        invariant
            a <= b <= l.len(),
            rest == l@.subrange(a as int, l.len() as int),
            trim_end(rest) == trim_end(l@.subrange(a as int, b as int)),
        decreases b,
    {
        proof {
            lemma_trim_end_cut(l@, a as int, b as int);
        }
        b = b - 1;
    }
    let ghost t = l@.subrange(a as int, b as int);
    assert(trim_end(t) == t);
    (a, b)
}

/// Whether a line is kept as JSON: once trimmed, it opens with `{` or `[`
/// or closes with `}` or `]`.
pub open spec fn keeps_line(l: Seq<char>) -> bool {
    let t = trim(l);
    t.len() > 0 && (t[0] == '{' || t[0] == '[' || t.last() == '}' || t.last() == ']')
}

pub fn keeps_line_exec(l: &Vec<char>) -> (r: bool)
    ensures
        r == keeps_line(l@),
{
    let (a, b) = trim_bounds(l);
    if a < b {
        l[a] == '{' || l[a] == '[' || l[b - 1] == '}' || l[b - 1] == ']'
    } else {
        false
    }
}

/// The lines of the output that are kept as JSON, in order.
pub open spec fn kept_lines(s: Seq<char>) -> Seq<Seq<char>> {
    text_lines(s).filter(|l: Seq<char>| keeps_line(l))
}

/// The lines joined with a separator between each two.
pub open spec fn joined(ls: Seq<Seq<char>>, sep: char) -> Seq<char>
    decreases ls.len(),
{
    if ls.len() == 0 {
        Seq::empty()
    } else if ls.len() == 1 {
        ls[0]
    } else {
        joined(ls.drop_last(), sep).push(sep) + ls.last()
    }
}

/// The cleaned output: with two or more kept lines, those lines between `[`
/// and `]` and separated by `,`; a single kept line as it stands; nothing
/// where no line is kept.
pub open spec fn cleaned(s: Seq<char>) -> Seq<char> {
    let k = kept_lines(s);
    if k.len() > 1 {
        seq!['['] + joined(k, ',') + seq![']']
    } else if k.len() == 1 {
        k[0]
    } else {
        Seq::empty()
    }
}

/// Appends `line` to `out`.
fn append_chars(out: &mut Vec<char>, line: &Vec<char>)
    ensures
        final(out)@ == old(out)@ + line@,
{
    let mut i: usize = 0;
    let ghost start = out@;
    while i < line.len()
        invariant
            i <= line.len(),
            out@ == start + line@.take(i as int),
        decreases line.len() - i,
    {
        out.push(line[i]);
        proof {
            assert(line@.take(i + 1) =~= line@.take(i as int).push(line@[i as int]));
            assert(out@ =~= start + line@.take(i + 1));
        }
        i = i + 1;
    }
    proof {
        assert(line@.take(line.len() as int) =~= line@);
    }
}

/// The lines kept as JSON, in order.
fn kept(lines: &Vec<Vec<char>>) -> (r: Vec<Vec<char>>)
    ensures
        r@.map_values(|l: Vec<char>| l@) == lines@.map_values(|l: Vec<char>| l@).filter(
            |l: Seq<char>| keeps_line(l),
        ),
{
    let ghost all = lines@.map_values(|l: Vec<char>| l@);
    let mut out: Vec<Vec<char>> = Vec::new();
    let mut i: usize = 0;
    proof {
        assert(all.take(0) =~= Seq::<Seq<char>>::empty());
        assert(out@.map_values(|l: Vec<char>| l@) =~= Seq::<Seq<char>>::empty());
    }
    while i < lines.len()
        invariant
            i <= lines.len(),
            all == lines@.map_values(|l: Vec<char>| l@),
            out@.map_values(|l: Vec<char>| l@) == all.take(i as int).filter(
                |l: Seq<char>| keeps_line(l),
            ),
        decreases lines.len() - i,
    {
        proof {
            assert(all.take(i + 1).drop_last() =~= all.take(i as int));
            assert(all.take(i + 1).last() == lines@[i as int]@);
            assert(all.take(i + 1) =~= all.take(i as int).push(lines@[i as int]@));
            all.take(i as int).lemma_filter_push(lines@[i as int]@, |l: Seq<char>| keeps_line(l));
            assert(all.take(i + 1).filter(|l: Seq<char>| keeps_line(l)) == if keeps_line(lines@[i as int]@) {
                all.take(i as int).filter(|l: Seq<char>| keeps_line(l)).push(lines@[i as int]@)
            } else {
                all.take(i as int).filter(|l: Seq<char>| keeps_line(l))
            });
        }
        if keeps_line_exec(&lines[i]) {
            let line = copy_range(&lines[i], 0, lines[i].len());
            proof {
                assert(lines@[i as int]@.subrange(0, lines@[i as int]@.len() as int) =~= lines@[i as int]@);
            }
            let ghost before = out@;
            out.push(line);
            proof {
                assert(out@.map_values(|l: Vec<char>| l@) =~= before.map_values(|l: Vec<char>| l@).push(line@));
            }
        }
        i = i + 1;
    }
    proof {
        assert(all.take(lines.len() as int) =~= all);
    }
    out
}

/// The kept lines of a text, joined as `cleaned` says.
fn join_kept(k: &Vec<Vec<char>>) -> (r: Vec<char>)
    ensures
        ({
            let ks = k@.map_values(|l: Vec<char>| l@);
            r@ == if ks.len() > 1 {
                seq!['['] + joined(ks, ',') + seq![']']
            } else if ks.len() == 1 {
                ks[0]
            } else {
                Seq::empty()
            }
        }),
{
    let ghost ks = k@.map_values(|l: Vec<char>| l@);
    let mut out: Vec<char> = Vec::new();
    if k.len() == 0 {
        return out;
    }
    if k.len() == 1 {
        append_chars(&mut out, &k[0]);
        return out;
    }
    out.push('[');
    append_chars(&mut out, &k[0]);
    let mut i: usize = 1;
    proof {
        assert(ks.take(1).drop_last() =~= Seq::<Seq<char>>::empty());
        assert(joined(ks.take(1), ',') == ks[0]);
        assert(out@ =~= seq!['['] + joined(ks.take(1), ','));
    }
    while i < k.len()
        invariant
            1 <= i <= k.len(),
            ks == k@.map_values(|l: Vec<char>| l@),
            out@ == seq!['['] + joined(ks.take(i as int), ','),
        decreases k.len() - i,
    {
        out.push(',');
        append_chars(&mut out, &k[i]);
        proof {
            let t = ks.take(i + 1);
            assert(t.drop_last() =~= ks.take(i as int));
            assert(t.last() == k@[i as int]@);
            assert(out@ =~= seq!['['] + joined(t, ','));
        }
        i = i + 1;
    }
    out.push(']');
    proof {
        assert(ks.take(k.len() as int) =~= ks);
    }
    out
}

/// The JSON part of the build tool's output: its lines kept as JSON, wrapped
/// into one array where there are several.
pub fn clean_dbt_output(output: &[u8]) -> (r: String)
    ensures
        r@ == cleaned(output_text(output@)),
{
    let text = match decode_text(output) {
        Some(t) => t,
        None => String::new(),
    };
    let cs = chars_of(text.as_str());
    let lines = split_lines(&cs);
    let k = kept(&lines);
    let out = join_kept(&k);
    text_from(out.as_slice())
}


/// The document in the build tool's output: what serde_json reads from the
/// cleaned output.
pub open spec fn normalized(output: Seq<u8>) -> Option<crate::json::JsonValue> {
    parsed_json(cleaned(output_text(output)))
}

/// The JSON document in the build tool's output, or `Normalization` with the
/// cleaned text where that text is not JSON.
pub fn normalize(output: &[u8]) -> (r: Result<Json, DbtError>)
    ensures
        match r {
            Ok(j) => normalized(output@) == Some(j@),
            Err(e) => normalized(output@) is None && (e matches DbtError::Normalization(t) && t@
                == cleaned(output_text(output@))),
        },
{
    let text = clean_dbt_output(output);
    match parse_json(text.as_str()) {
        Some(j) => Ok(j),
        None => Err(DbtError::Normalization(text)),
    }
}

/// The identifiers of a plain listing: each line trimmed, empty ones left
/// out.
pub open spec fn listed_ids(s: Seq<char>) -> Seq<Seq<char>> {
    text_lines(s).map_values(|l: Seq<char>| trim(l)).filter(|t: Seq<char>| t.len() > 0)
}

/// The identifiers in a plain listing of the build tool, one per non-empty
/// line, trimmed.
pub fn plain_listing(output: &[u8]) -> (r: Vec<String>)
    ensures
        r@.map_values(|s: String| s@) == listed_ids(output_text(output@)),
{
    let text = match decode_text(output) {
        Some(t) => t,
        None => String::new(),
    };
    let cs = chars_of(text.as_str());
    let lines = split_lines(&cs);
    let ghost trimmed = lines@.map_values(|l: Vec<char>| l@).map_values(|l: Seq<char>| trim(l));
    let mut out: Vec<String> = Vec::new();
    let mut i: usize = 0;
    proof {
        assert(trimmed.take(0) =~= Seq::<Seq<char>>::empty());
        assert(out@.map_values(|s: String| s@) =~= Seq::<Seq<char>>::empty());
    }
    while i < lines.len()
        invariant
            i <= lines.len(),
            trimmed == lines@.map_values(|l: Vec<char>| l@).map_values(|l: Seq<char>| trim(l)),
            out@.map_values(|s: String| s@) == trimmed.take(i as int).filter(
                |t: Seq<char>| t.len() > 0,
            ),
        decreases lines.len() - i,
    {
        let (a, b) = trim_bounds(&lines[i]);
        proof {
            assert(trimmed[i as int] == lines@[i as int]@.subrange(a as int, b as int));
            assert(trimmed.take(i + 1) =~= trimmed.take(i as int).push(trimmed[i as int]));
            trimmed.take(i as int).lemma_filter_push(trimmed[i as int], |t: Seq<char>| t.len() > 0);
        }
        if a < b {
            let piece = copy_range(&lines[i], a, b);
            let id = text_from(piece.as_slice());
            let ghost before = out@;
            out.push(id);
            proof {
                assert(out@.map_values(|s: String| s@) =~= before.map_values(|s: String| s@).push(id@));
            }
        }
        i = i + 1;
    }
    proof {
        assert(trimmed.take(lines.len() as int) =~= trimmed);
        assert(lines@.map_values(|l: Vec<char>| l@) == text_lines(cs@));
    }
    out
}

} // verus!
