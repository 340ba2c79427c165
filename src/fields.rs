//! Reading the members of a descriptor: each kind of member, absent or
//! `null` read as "not set", a value of the wrong kind refused.

use vstd::prelude::*;
use crate::json::{Json, JsonValue, items_model, members_model};

verus! {

/// Every element mapped by `f`, or `None` where `f` refuses one.
pub open spec fn all_mapped<A, B>(s: Seq<A>, f: spec_fn(A) -> Option<B>) -> Option<Seq<B>>
    decreases s.len(),
{
    if s.len() == 0 {
        Some(Seq::empty())
    } else {
        match (all_mapped(s.drop_last(), f), f(s.last())) {
            (Some(r), Some(b)) => Some(r.push(b)),
            _ => None,
        }
    }
}

pub(crate) proof fn lemma_all_mapped_step<A, B>(s: Seq<A>, i: int, f: spec_fn(A) -> Option<B>)
    requires
        0 <= i < s.len(),
    ensures
        all_mapped(s.take(i + 1), f) == match (all_mapped(s.take(i), f), f(s[i])) {
            (Some(r), Some(b)) => Some(r.push(b)),
            _ => None,
        },
{
    assert(s.take(i + 1).drop_last() =~= s.take(i));
}

pub(crate) proof fn lemma_all_mapped_prefix<A, B>(s: Seq<A>, i: int, f: spec_fn(A) -> Option<B>)
    requires
        0 <= i <= s.len(),
        all_mapped(s.take(i), f) is None,
    ensures
        all_mapped(s, f) is None,
    decreases s.len() - i,
{
    if i < s.len() {
        lemma_all_mapped_step(s, i, f);
        lemma_all_mapped_prefix(s, i + 1, f);
    } else {
        assert(s.take(i) =~= s);
    }
}

/// A member's value as the decoders see it: absent and `null` alike.
pub open spec fn present(v: Option<JsonValue>) -> Option<JsonValue> {
    match v {
        Some(JsonValue::Null) => None,
        _ => v,
    }
}

pub open spec fn as_text(j: JsonValue) -> Option<Seq<char>> {
    match j {
        JsonValue::Str(s) => Some(s),
        _ => None,
    }
}

pub open spec fn as_flag(j: JsonValue) -> Option<bool> {
    match j {
        JsonValue::Bool(b) => Some(b),
        _ => None,
    }
}

pub open spec fn as_texts(j: JsonValue) -> Option<Seq<Seq<char>>> {
    match j {
        JsonValue::Array(items) => all_mapped(items, |e: JsonValue| as_text(e)),
        _ => None,
    }
}

pub open spec fn is_digit(c: char) -> bool {
    '0' <= c && c <= '9'
}

/// The number written by a run of decimal digits.
pub open spec fn digits_value(t: Seq<char>) -> nat
    decreases t.len(),
{
    if t.len() == 0 {
        0
    } else {
        digits_value(t.drop_last()) * 10 + (t.last() as nat - '0' as nat) as nat
    }
}

/// A count: a number written as decimal digits alone that fits in `u32`.
pub open spec fn as_count(j: JsonValue) -> Option<u32> {
    match j {
        JsonValue::Number(t) => if t.len() > 0 && (forall|i: int|
            0 <= i < t.len() ==> is_digit(#[trigger] t[i])) && digits_value(t) <= u32::MAX {
            Some(digits_value(t) as u32)
        } else {
            None
        },
        _ => None,
    }
}

pub open spec fn text_entry(m: (Seq<char>, JsonValue)) -> Option<(Seq<char>, Seq<char>)> {
    match as_text(m.1) {
        Some(b) => Some((m.0, b)),
        None => None,
    }
}

pub open spec fn flag_entry(m: (Seq<char>, JsonValue)) -> Option<(Seq<char>, bool)> {
    match as_flag(m.1) {
        Some(b) => Some((m.0, b)),
        None => None,
    }
}

pub open spec fn texts_entry(m: (Seq<char>, JsonValue)) -> Option<(Seq<char>, Seq<Seq<char>>)> {
    match as_texts(m.1) {
        Some(b) => Some((m.0, b)),
        None => None,
    }
}

/// An object whose member values are all texts.
pub open spec fn as_text_entries(j: JsonValue) -> Option<Seq<(Seq<char>, Seq<char>)>> {
    match j {
        JsonValue::Object(members) => all_mapped(members, |m: (Seq<char>, JsonValue)| text_entry(m)),
        _ => None,
    }
}

/// An object whose member values are all flags.
pub open spec fn as_flag_entries(j: JsonValue) -> Option<Seq<(Seq<char>, bool)>> {
    match j {
        JsonValue::Object(members) => all_mapped(members, |m: (Seq<char>, JsonValue)| flag_entry(m)),
        _ => None,
    }
}

/// An object whose member values are all arrays of texts.
pub open spec fn as_texts_entries(j: JsonValue) -> Option<Seq<(Seq<char>, Seq<Seq<char>>)>> {
    match j {
        JsonValue::Object(members) => all_mapped(members, |m: (Seq<char>, JsonValue)| texts_entry(m)),
        _ => None,
    }
}

/// An optional member read by `f`: `Some(None)` where it is not set,
/// `None` where it holds a value of the wrong kind.
pub open spec fn optional<B>(v: Option<JsonValue>, f: spec_fn(JsonValue) -> Option<B>) -> Option<
    Option<B>,
> {
    match present(v) {
        None => Some(None),
        Some(j) => match f(j) {
            Some(b) => Some(Some(b)),
            None => None,
        },
    }
}

pub open spec fn json_opt(v: Option<&Json>) -> Option<JsonValue> {
    match v {
        Some(j) => Some(j@),
        None => None,
    }
}

pub open spec fn texts_view(v: Vec<String>) -> Seq<Seq<char>> {
    v@.map_values(|s: String| s@)
}

pub open spec fn opt_text_view(o: Option<String>) -> Option<Seq<char>> {
    match o {
        Some(s) => Some(s@),
        None => None,
    }
}

pub open spec fn opt_texts_view(o: Option<Vec<String>>) -> Option<Seq<Seq<char>>> {
    match o {
        Some(v) => Some(texts_view(v)),
        None => None,
    }
}

pub open spec fn opt_text_entries_view(o: Option<Vec<(String, String)>>) -> Option<
    Seq<(Seq<char>, Seq<char>)>,
> {
    match o {
        Some(v) => Some(v@.map_values(|e: (String, String)| (e.0@, e.1@))),
        None => None,
    }
}

pub open spec fn opt_flag_entries_view(o: Option<Vec<(String, bool)>>) -> Option<
    Seq<(Seq<char>, bool)>,
> {
    match o {
        Some(v) => Some(v@.map_values(|e: (String, bool)| (e.0@, e.1))),
        None => None,
    }
}

pub open spec fn opt_texts_entries_view(o: Option<Vec<(String, Vec<String>)>>) -> Option<
    Seq<(Seq<char>, Seq<Seq<char>>)>,
> {
    match o {
        Some(v) => Some(v@.map_values(|e: (String, Vec<String>)| (e.0@, texts_view(e.1)))),
        None => None,
    }
}

/// Whether a member's value is absent or `null`.
pub(crate) fn is_unset(v: Option<&Json>) -> (r: bool)
    ensures
        r == (present(json_opt(v)) is None),
{
    match v {
        None => true,
        Some(Json::Null) => true,
        Some(_) => false,
    }
}

/// A text value.
pub fn text_value(j: &Json) -> (r: Option<String>)
    ensures
        opt_text_view(r) == as_text(j@),
{
    match j {
        Json::Str(s) => Some(s.clone()),
        _ => None,
    }
}

/// An array of texts.
pub fn texts_value(j: &Json) -> (r: Option<Vec<String>>)
    ensures
        opt_texts_view(r) == as_texts(j@),
{
    match j {
        Json::Array(items) => {
            let ghost all = items_model(items@);
            let ghost f = |e: JsonValue| as_text(e);
            let mut out: Vec<String> = Vec::new();
            let mut i: usize = 0;
            proof {
                crate::json::lemma_items_model_len(items@);
                assert(all.take(0) =~= Seq::<JsonValue>::empty());
                assert(texts_view(out) =~= Seq::<Seq<char>>::empty());
            }
            while i < items.len()
                invariant
                    i <= items.len(),
                    all == items_model(items@),
                    all.len() == items.len(),
                    j@ == JsonValue::Array(all),
                    f == (|e: JsonValue| as_text(e)),
                    all_mapped(all.take(i as int), f) == Some(texts_view(out)),
                decreases items.len() - i,
            {
                proof {
                    crate::json::lemma_items_model_index(items@, i as int);
                    lemma_all_mapped_step(all, i as int, f);
                }
                match text_value(&items[i]) {
                    Some(s) => {
                        let ghost before = out@;
                        out.push(s);
                        proof {
                            assert(texts_view(out) =~= before.map_values(|s: String| s@).push(s@));
                        }
                    },
                    None => {
                        proof {
                            lemma_all_mapped_prefix(all, i + 1, f);
                        }
                        return None;
                    },
                }
                i = i + 1;
            }
            proof {
                assert(all.take(items.len() as int) =~= all);
            }
            Some(out)
        },
        _ => None,
    }
}

proof fn lemma_digits_grow(t: Seq<char>, i: int)
    requires
        0 <= i <= t.len(),
    ensures
        digits_value(t) >= digits_value(t.take(i)),
    decreases t.len() - i,
{
    if i < t.len() {
        lemma_digits_grow(t, i + 1);
        assert(t.take(i + 1).drop_last() =~= t.take(i));
    } else {
        assert(t.take(i) =~= t);
    }
}

/// A count: decimal digits alone, of a value that fits in `u32`.
pub fn count_value(j: &Json) -> (r: Option<u32>)
    ensures
        r == as_count(j@),
{
    match j {
        Json::Number(t) => {
            let cs = crate::text::chars_of(t.as_str());
            if cs.len() == 0 {
                return None;
            }
            let mut acc: u64 = 0;
            let mut i: usize = 0;
            proof {
                assert(cs@.take(0) =~= Seq::<char>::empty());
            }
            while i < cs.len()
                invariant
                    i <= cs.len(),
                    cs@ == t@,
                    j@ == JsonValue::Number(cs@),
                    acc == digits_value(cs@.take(i as int)),
                    acc <= u32::MAX,
                    forall|k: int| 0 <= k < i ==> is_digit(#[trigger] cs@[k]),
                decreases cs.len() - i,
            {
                let c = cs[i];
                if !('0' <= c && c <= '9') {
                    proof {
                        assert(!is_digit(cs@[i as int]));
                    }
                    return None;
                }
                proof {
                    assert(cs@.take(i + 1).drop_last() =~= cs@.take(i as int));
                }
                let d = (c as u32 - '0' as u32) as u64;
                acc = acc * 10 + d;
                if acc > 0xffff_ffff {
                    proof {
                        lemma_digits_grow(cs@, i + 1);
                    }
                    return None;
                }
                i = i + 1;
            }
            proof {
                assert(cs@.take(cs.len() as int) =~= cs@);
            }
            Some(acc as u32)
        },
        _ => None,
    }
}


/// A flag value.
pub fn flag_value(j: &Json) -> (r: Option<bool>)
    ensures
        r == as_flag(j@),
{
    match j {
        Json::Bool(b) => Some(*b),
        _ => None,
    }
}

/// An object whose member values are each a text.
pub fn text_entries(j: &Json) -> (r: Option<Vec<(String, String)>>)
    ensures
        opt_text_entries_view(r) == as_text_entries(j@),
{
    match j {
        Json::Object(members) => {
            let ghost all = members_model(members@);
            let ghost f = |m: (Seq<char>, JsonValue)| text_entry(m);
            let mut out: Vec<(String, String)> = Vec::new();
            let mut i: usize = 0;
            proof {
                crate::json::lemma_members_model_len(members@);
                assert(all.take(0) =~= Seq::<(Seq<char>, JsonValue)>::empty());
                assert(out@.map_values(|e: (String, String)| (e.0@, e.1@)) =~= Seq::empty());
            }
            while i < members.len()
                invariant
                    i <= members.len(),
                    all == members_model(members@),
                    all.len() == members.len(),
                    j@ == JsonValue::Object(all),
                    f == (|m: (Seq<char>, JsonValue)| text_entry(m)),
                    all_mapped(all.take(i as int), f) == opt_text_entries_view(Some(out)),
                decreases members.len() - i,
            {
                proof {
                    crate::json::lemma_members_model_index(members@, i as int);
                    lemma_all_mapped_step(all, i as int, f);
                }
                match text_value(&members[i].1) {
                    Some(x) => {
                        let ghost before = out@;
                        let k = members[i].0.clone();
                        out.push((k, x));
                        proof {
                            assert(out@.map_values(|e: (String, String)| (e.0@, e.1@)) =~= before.map_values(|e: (String, String)| (e.0@, e.1@)).push((k@, x@)));
                        }
                    },
                    None => {
                        proof {
                            lemma_all_mapped_prefix(all, i + 1, f);
                        }
                        return None;
                    },
                }
                i = i + 1;
            }
            proof {
                assert(all.take(members.len() as int) =~= all);
            }
            Some(out)
        },
        _ => None,
    }
}

/// An object whose member values are each a flag.
pub fn flag_entries(j: &Json) -> (r: Option<Vec<(String, bool)>>)
    ensures
        opt_flag_entries_view(r) == as_flag_entries(j@),
{
    match j {
        Json::Object(members) => {
            let ghost all = members_model(members@);
            let ghost f = |m: (Seq<char>, JsonValue)| flag_entry(m);
            let mut out: Vec<(String, bool)> = Vec::new();
            let mut i: usize = 0;
            proof {
                crate::json::lemma_members_model_len(members@);
                assert(all.take(0) =~= Seq::<(Seq<char>, JsonValue)>::empty());
                assert(out@.map_values(|e: (String, bool)| (e.0@, e.1)) =~= Seq::empty());
            }
            while i < members.len()
                invariant
                    i <= members.len(),
                    all == members_model(members@),
                    all.len() == members.len(),
                    j@ == JsonValue::Object(all),
                    f == (|m: (Seq<char>, JsonValue)| flag_entry(m)),
                    all_mapped(all.take(i as int), f) == opt_flag_entries_view(Some(out)),
                decreases members.len() - i,
            {
                proof {
                    crate::json::lemma_members_model_index(members@, i as int);
                    lemma_all_mapped_step(all, i as int, f);
                }
                match flag_value(&members[i].1) {
                    Some(x) => {
                        let ghost before = out@;
                        let k = members[i].0.clone();
                        out.push((k, x));
                        proof {
                            assert(out@.map_values(|e: (String, bool)| (e.0@, e.1)) =~= before.map_values(|e: (String, bool)| (e.0@, e.1)).push((k@, x)));
                        }
                    },
                    None => {
                        proof {
                            lemma_all_mapped_prefix(all, i + 1, f);
                        }
                        return None;
                    },
                }
                i = i + 1;
            }
            proof {
                assert(all.take(members.len() as int) =~= all);
            }
            Some(out)
        },
        _ => None,
    }
}

/// An object whose member values are each an array of texts.
pub fn texts_entries(j: &Json) -> (r: Option<Vec<(String, Vec<String>)>>)
    ensures
        opt_texts_entries_view(r) == as_texts_entries(j@),
{
    match j {
        Json::Object(members) => {
            let ghost all = members_model(members@);
            let ghost f = |m: (Seq<char>, JsonValue)| texts_entry(m);
            let mut out: Vec<(String, Vec<String>)> = Vec::new();
            let mut i: usize = 0;
            proof {
                crate::json::lemma_members_model_len(members@);
                assert(all.take(0) =~= Seq::<(Seq<char>, JsonValue)>::empty());
                assert(out@.map_values(|e: (String, Vec<String>)| (e.0@, texts_view(e.1))) =~= Seq::empty());
            }
            while i < members.len()
                invariant
                    i <= members.len(),
                    all == members_model(members@),
                    all.len() == members.len(),
                    j@ == JsonValue::Object(all),
                    f == (|m: (Seq<char>, JsonValue)| texts_entry(m)),
                    all_mapped(all.take(i as int), f) == opt_texts_entries_view(Some(out)),
                decreases members.len() - i,
            {
                proof {
                    crate::json::lemma_members_model_index(members@, i as int);
                    lemma_all_mapped_step(all, i as int, f);
                }
                match texts_value(&members[i].1) {
                    Some(x) => {
                        let ghost before = out@;
                        let k = members[i].0.clone();
                        out.push((k, x));
                        proof {
                            assert(out@.map_values(|e: (String, Vec<String>)| (e.0@, texts_view(e.1))) =~= before.map_values(|e: (String, Vec<String>)| (e.0@, texts_view(e.1))).push((k@, texts_view(x))));
                        }
                    },
                    None => {
                        proof {
                            lemma_all_mapped_prefix(all, i + 1, f);
                        }
                        return None;
                    },
                }
                i = i + 1;
            }
            proof {
                assert(all.take(members.len() as int) =~= all);
            }
            Some(out)
        },
        _ => None,
    }
}

pub open spec fn opt_text(v: Option<JsonValue>) -> Option<Option<Seq<char>>> {
    optional(v, |j: JsonValue| as_text(j))
}

/// An optional member read by `as_text`.
pub fn read_text(v: Option<&Json>) -> (r: Option<Option<String>>)
    ensures
        match r {
            Some(x) => opt_text(json_opt(v)) == Some(opt_text_view(x)),
            None => opt_text(json_opt(v)) is None,
        },
{
    if is_unset(v) {
        return Some(None);
    }
    match v {
        Some(j) => match text_value(j) {
            Some(x) => Some(Some(x)),
            None => None,
        },
        None => None,
    }
}

pub open spec fn opt_flag(v: Option<JsonValue>) -> Option<Option<bool>> {
    optional(v, |j: JsonValue| as_flag(j))
}

/// An optional member read by `as_flag`.
pub fn read_flag(v: Option<&Json>) -> (r: Option<Option<bool>>)
    ensures
        match r {
            Some(x) => opt_flag(json_opt(v)) == Some(x),
            None => opt_flag(json_opt(v)) is None,
        },
{
    if is_unset(v) {
        return Some(None);
    }
    match v {
        Some(j) => match flag_value(j) {
            Some(x) => Some(Some(x)),
            None => None,
        },
        None => None,
    }
}

pub open spec fn opt_count(v: Option<JsonValue>) -> Option<Option<u32>> {
    optional(v, |j: JsonValue| as_count(j))
}

/// An optional member read by `as_count`.
pub fn read_count(v: Option<&Json>) -> (r: Option<Option<u32>>)
    ensures
        match r {
            Some(x) => opt_count(json_opt(v)) == Some(x),
            None => opt_count(json_opt(v)) is None,
        },
{
    if is_unset(v) {
        return Some(None);
    }
    match v {
        Some(j) => match count_value(j) {
            Some(x) => Some(Some(x)),
            None => None,
        },
        None => None,
    }
}

pub open spec fn opt_texts(v: Option<JsonValue>) -> Option<Option<Seq<Seq<char>>>> {
    optional(v, |j: JsonValue| as_texts(j))
}

/// An optional member read by `as_texts`.
pub fn read_texts(v: Option<&Json>) -> (r: Option<Option<Vec<String>>>)
    ensures
        match r {
            Some(x) => opt_texts(json_opt(v)) == Some(opt_texts_view(x)),
            None => opt_texts(json_opt(v)) is None,
        },
{
    if is_unset(v) {
        return Some(None);
    }
    match v {
        Some(j) => match texts_value(j) {
            Some(x) => Some(Some(x)),
            None => None,
        },
        None => None,
    }
}

pub open spec fn opt_text_entries(v: Option<JsonValue>) -> Option<Option<Seq<(Seq<char>, Seq<char>)>>> {
    optional(v, |j: JsonValue| as_text_entries(j))
}

/// An optional member read by `as_text_entries`.
pub fn read_text_entries(v: Option<&Json>) -> (r: Option<Option<Vec<(String, String)>>>)
    ensures
        match r {
            Some(x) => opt_text_entries(json_opt(v)) == Some(opt_text_entries_view(x)),
            None => opt_text_entries(json_opt(v)) is None,
        },
{
    if is_unset(v) {
        return Some(None);
    }
    match v {
        Some(j) => match text_entries(j) {
            Some(x) => Some(Some(x)),
            None => None,
        },
        None => None,
    }
}

pub open spec fn opt_flag_entries(v: Option<JsonValue>) -> Option<Option<Seq<(Seq<char>, bool)>>> {
    optional(v, |j: JsonValue| as_flag_entries(j))
}

/// An optional member read by `as_flag_entries`.
pub fn read_flag_entries(v: Option<&Json>) -> (r: Option<Option<Vec<(String, bool)>>>)
    ensures
        match r {
            Some(x) => opt_flag_entries(json_opt(v)) == Some(opt_flag_entries_view(x)),
            None => opt_flag_entries(json_opt(v)) is None,
        },
{
    if is_unset(v) {
        return Some(None);
    }
    match v {
        Some(j) => match flag_entries(j) {
            Some(x) => Some(Some(x)),
            None => None,
        },
        None => None,
    }
}

pub open spec fn opt_texts_entries(v: Option<JsonValue>) -> Option<Option<Seq<(Seq<char>, Seq<Seq<char>>)>>> {
    optional(v, |j: JsonValue| as_texts_entries(j))
}

/// An optional member read by `as_texts_entries`.
pub fn read_texts_entries(v: Option<&Json>) -> (r: Option<Option<Vec<(String, Vec<String>)>>>)
    ensures
        match r {
            Some(x) => opt_texts_entries(json_opt(v)) == Some(opt_texts_entries_view(x)),
            None => opt_texts_entries(json_opt(v)) is None,
        },
{
    if is_unset(v) {
        return Some(None);
    }
    match v {
        Some(j) => match texts_entries(j) {
            Some(x) => Some(Some(x)),
            None => None,
        },
        None => None,
    }
}

} // verus!
