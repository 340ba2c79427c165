//! The manifest store: the mapping from node identifier to descriptor, read
//! either from the build tool's output or from the cached manifest.

use vstd::prelude::*;
use crate::dbt::{required, required_text};
use crate::error::{DbtError, FieldFault};
use crate::json::{
    field, get_field, members_model, parse_json, parsed_json, same_text, Json,
    JsonValue,
};
use crate::fields::all_mapped;
use crate::text::{normalize, normalized, cleaned, output_text};

verus! {

/// What running the build tool gave back.
#[derive(Debug, Clone, PartialEq)]
pub struct ToolRun {
    /// Whether it exited with success.
    pub success: bool,
    pub stdout: Vec<u8>,
    pub stderr: String,
}

/// Where a manifest comes from.
#[derive(Debug, Clone, PartialEq)]
pub enum ManifestSource {
    /// The project directory, the cached manifest or the tool could not be
    /// reached; holds the path or command that was tried.
    Unavailable(String),
    /// The build tool was run.
    Tool(ToolRun),
    /// The text of the cached manifest.
    Cache(String),
}

pub open spec fn has_key(m: Seq<(Seq<char>, JsonValue)>, k: Seq<char>) -> bool {
    exists|i: int| 0 <= i < m.len() && (#[trigger] m[i]).0 == k
}

pub open spec fn keys_distinct(m: Seq<(Seq<char>, JsonValue)>) -> bool {
    forall|i: int, j: int| 0 <= i < j < m.len() ==> (#[trigger] m[i]).0 != (#[trigger] m[j]).0
}

/// The entries with the first of each key kept, in order.
pub open spec fn first_wins(entries: Seq<(Seq<char>, JsonValue)>) -> Seq<(Seq<char>, JsonValue)>
    decreases entries.len(),
{
    if entries.len() == 0 {
        Seq::empty()
    } else {
        let m = first_wins(entries.drop_last());
        if has_key(m, entries.last().0) {
            m
        } else {
            m.push(entries.last())
        }
    }
}

/// The manifest: each node's descriptor under its identifier, in the order
/// the source lists them, no identifier twice.
#[derive(Debug, PartialEq)]
pub struct DbtManifest {
    nodes: Vec<(String, Json)>,
}

impl View for DbtManifest {
    type V = Seq<(Seq<char>, JsonValue)>;

    closed spec fn view(&self) -> Seq<(Seq<char>, JsonValue)> {
        members_model(self.nodes@)
    }
}

impl DbtManifest {
    pub open spec fn wf(&self) -> bool {
        keys_distinct(self@)
    }

    /// A manifest without nodes.
    pub fn new() -> (r: DbtManifest)
        ensures
            r@ == Seq::<(Seq<char>, JsonValue)>::empty(),
            r.wf(),
    {
        DbtManifest { nodes: Vec::new() }
    }

    /// The number of nodes.
    pub fn len(&self) -> (r: usize)
        ensures
            r == self@.len(),
    {
        proof {
            crate::json::lemma_members_model_len(self.nodes@);
        }
        self.nodes.len()
    }

    /// The identifier of the node at `i`.
    pub fn key_at(&self, i: usize) -> (r: &String)
        requires
            i < self@.len(),
        ensures
            r@ == self@[i as int].0,
    {
        proof {
            crate::json::lemma_members_model_len(self.nodes@);
            crate::json::lemma_members_model_index(self.nodes@, i as int);
        }
        &self.nodes[i].0
    }

    /// The descriptor of the node at `i`.
    pub fn descriptor_at(&self, i: usize) -> (r: &Json)
        requires
            i < self@.len(),
        ensures
            r@ == self@[i as int].1,
    {
        proof {
            crate::json::lemma_members_model_len(self.nodes@);
            crate::json::lemma_members_model_index(self.nodes@, i as int);
        }
        &self.nodes[i].1
    }

    /// Whether a node has the identifier `key`.
    pub fn contains(&self, key: &str) -> (r: bool)
        ensures
            r == has_key(self@, key@),
    {
        let n = self.len();
        let mut i: usize = 0;
        while i < n
            invariant
                i <= n == self@.len(),
                forall|k: int| 0 <= k < i ==> (#[trigger] self@[k]).0 != key@,
            decreases n - i,
        {
            if same_text(self.key_at(i).as_str(), key) {
                return true;
            }
            i = i + 1;
        }
        false
    }

    /// Adds a node, unless one with that identifier is already there.
    pub fn insert_first(&mut self, key: String, descriptor: Json)
        requires
            old(self).wf(),
        ensures
            final(self).wf(),
            final(self)@ == if has_key(old(self)@, key@) {
                old(self)@
            } else {
                old(self)@.push((key@, descriptor@))
            },
    {
        if !self.contains(key.as_str()) {
            let ghost before = self.nodes@;
            self.nodes.push((key, descriptor));
            proof {
                assert(self.nodes@.drop_last() =~= before);
                assert(self@ == members_model(before).push((key@, descriptor@)));
            }
        }
    }
}


/// The descriptors in the tool's document: the elements of an array, or
/// the document itself where it is a single one.
pub open spec fn descriptors(j: JsonValue) -> Seq<JsonValue> {
    match j {
        JsonValue::Array(items) => items,
        _ => seq![j],
    }
}

/// A descriptor under its `unique_id`, where that is a text.
pub open spec fn keyed(d: JsonValue) -> Option<(Seq<char>, JsonValue)> {
    match required_text(field(d, "unique_id"@)) {
        Some(k) => Some((k, d)),
        None => None,
    }
}

/// The manifest that the tool's document describes: each descriptor under
/// its `unique_id`, the first of each kept; `None` where a descriptor has no
/// text `unique_id`.
pub open spec fn tool_manifest(j: JsonValue) -> Option<Seq<(Seq<char>, JsonValue)>> {
    match all_mapped(descriptors(j), |d: JsonValue| keyed(d)) {
        Some(es) => Some(first_wins(es)),
        None => None,
    }
}

/// The manifest that a cached document holds: the members of its `nodes`
/// object.
pub open spec fn cache_manifest(doc: JsonValue) -> Option<Seq<(Seq<char>, JsonValue)>> {
    match field(doc, "nodes"@) {
        Some(JsonValue::Object(members)) => Some(first_wins(members)),
        _ => None,
    }
}

/// The manifest that a source yields, if any.
pub open spec fn loaded(src: ManifestSource) -> Option<Seq<(Seq<char>, JsonValue)>> {
    match src {
        ManifestSource::Unavailable(_) => None,
        ManifestSource::Tool(run) => if !run.success {
            None
        } else {
            match normalized(run.stdout@) {
                Some(j) => tool_manifest(j),
                None => None,
            }
        },
        ManifestSource::Cache(text) => match parsed_json(text@) {
            Some(doc) => cache_manifest(doc),
            None => None,
        },
    }
}

/// Whether `e` is the error that a source without a manifest gives.
pub open spec fn load_fault(src: ManifestSource, e: DbtError) -> bool {
    match src {
        ManifestSource::Unavailable(p) => e matches DbtError::SourceUnavailable(q) && q@ == p@,
        ManifestSource::Tool(run) => if !run.success {
            e matches DbtError::ToolFailed(m) && m@ == run.stderr@
        } else {
            match normalized(run.stdout@) {
                None => e matches DbtError::Normalization(t) && t@ == cleaned(
                    output_text(run.stdout@),
                ),
                Some(_) => e matches DbtError::Validation(v) && (v@ == FieldFault::Missing(
                    "unique_id"@,
                ) || v@ == FieldFault::Mismatch("unique_id"@)),
            }
        },
        ManifestSource::Cache(text) => match parsed_json(text@) {
            None => e matches DbtError::Normalization(t) && t@ == text@,
            Some(doc) => e matches DbtError::Validation(v) && (if field(doc, "nodes"@) is None {
                v@ == FieldFault::Missing("nodes"@)
            } else {
                v@ == FieldFault::Mismatch("nodes"@)
            }),
        },
    }
}

/// Adds one descriptor under its `unique_id`.
fn add_descriptor(m: &mut DbtManifest, d: &Json) -> (r: Result<(), DbtError>)
    requires
        old(m).wf(),
    ensures
        final(m).wf(),
        match r {
            Ok(()) => keyed(d@) is Some && final(m)@ == if has_key(old(m)@, (keyed(d@)->0).0) {
                old(m)@
            } else {
                old(m)@.push(keyed(d@)->0)
            },
            Err(e) => keyed(d@) is None && (e matches DbtError::Validation(v) && (v@
                == FieldFault::Missing("unique_id"@) || v@ == FieldFault::Mismatch(
                "unique_id"@,
            ))),
        },
{
    match required(d, "unique_id") {
        Ok(key) => {
            m.insert_first(key, d.duplicate());
            Ok(())
        },
        Err(v) => Err(DbtError::Validation(v)),
    }
}

impl DbtManifest {
    /// The manifest that the tool's document describes. Refuses a descriptor
    /// without a text `unique_id`.
    pub fn from_tool_document(j: &Json) -> (r: Result<DbtManifest, DbtError>)
        ensures
            match r {
                Ok(m) => m.wf() && tool_manifest(j@) == Some(m@),
                Err(e) => tool_manifest(j@) is None && (e matches DbtError::Validation(v) && (v@
                    == FieldFault::Missing("unique_id"@) || v@ == FieldFault::Mismatch(
                    "unique_id"@,
                ))),
            },
    {
        let mut m = DbtManifest::new();
        let ghost f = |d: JsonValue| keyed(d);
        match j {
            Json::Array(items) => {
                let ghost ds = crate::json::items_model(items@);
                proof {
                    crate::json::lemma_items_model_len(items@);
                    assert(ds.take(0) =~= Seq::<JsonValue>::empty());
                }
                let mut i: usize = 0;
                while i < items.len()
                    invariant
                        i <= items.len() == ds.len(),
                        ds == crate::json::items_model(items@),
                        j@ == JsonValue::Array(ds),
                        f == (|d: JsonValue| keyed(d)),
                        m.wf(),
                        all_mapped(ds.take(i as int), f) is Some,
                        m@ == first_wins(all_mapped(ds.take(i as int), f)->0),
                    decreases items.len() - i,
                {
                    proof {
                        crate::json::lemma_items_model_index(items@, i as int);
                        crate::fields::lemma_all_mapped_step(ds, i as int, f);
                    }
                    match add_descriptor(&mut m, &items[i]) {
                        Ok(()) => {
                            proof {
                                let prev = all_mapped(ds.take(i as int), f)->0;
                                let b = keyed(ds[i as int])->0;
                                assert(prev.push(b).drop_last() =~= prev);
                            }
                        },
                        Err(e) => {
                            proof {
                                crate::fields::lemma_all_mapped_prefix(ds, i + 1, f);
                            }
                            return Err(e);
                        },
                    }
                    i = i + 1;
                }
                proof {
                    assert(ds.take(items.len() as int) =~= ds);
                }
                Ok(m)
            },
            _ => {
                proof {
                    let ds = seq![j@];
                    assert(ds.drop_last() =~= Seq::<JsonValue>::empty());
                    assert(descriptors(j@) == ds);
                }
                match add_descriptor(&mut m, j) {
                    Ok(()) => {
                        proof {
                            let b = keyed(j@)->0;
                            let es = Seq::<(Seq<char>, JsonValue)>::empty().push(b);
                            assert(es.drop_last() =~= Seq::<(Seq<char>, JsonValue)>::empty());
                            assert(all_mapped(Seq::<JsonValue>::empty(), f) == Some(Seq::<(Seq<char>, JsonValue)>::empty()));
                            assert(seq![j@].last() == j@);
                            assert(f(j@) == Some(b));
                            assert(all_mapped(seq![j@], f) == Some(es));
                            assert(first_wins(Seq::<(Seq<char>, JsonValue)>::empty()) == Seq::<(Seq<char>, JsonValue)>::empty());
                            assert(first_wins(es) == Seq::<(Seq<char>, JsonValue)>::empty().push(b));
                        }
                        Ok(m)
                    },
                    Err(e) => Err(e),
                }
            },
        }
    }
}


impl DbtManifest {
    /// The manifest that a cached document holds: the members of its `nodes`
    /// object, under their names.
    pub fn from_cache_document(doc: &Json) -> (r: Result<DbtManifest, DbtError>)
        ensures
            match r {
                Ok(m) => m.wf() && cache_manifest(doc@) == Some(m@),
                Err(e) => cache_manifest(doc@) is None && (e matches DbtError::Validation(v) && (
                if field(doc@, "nodes"@) is None {
                    v@ == FieldFault::Missing("nodes"@)
                } else {
                    v@ == FieldFault::Mismatch("nodes"@)
                })),
            },
    {
        let nodes = match get_field(doc, "nodes") {
            None => {
                return Err(
                    DbtError::Validation(crate::error::ValidationError::MissingField("nodes".to_owned())),
                )
            },
            Some(n) => n,
        };
        match nodes {
            Json::Object(members) => {
                let ghost all = members_model(members@);
                let mut m = DbtManifest::new();
                let mut i: usize = 0;
                proof {
                    crate::json::lemma_members_model_len(members@);
                    assert(all.take(0) =~= Seq::<(Seq<char>, JsonValue)>::empty());
                }
                while i < members.len()
                    invariant
                        i <= members.len() == all.len(),
                        all == members_model(members@),
                        field(doc@, "nodes"@) == Some(JsonValue::Object(all)),
                        m.wf(),
                        m@ == first_wins(all.take(i as int)),
                    decreases members.len() - i,
                {
                    proof {
                        crate::json::lemma_members_model_index(members@, i as int);
                        assert(all.take(i + 1).drop_last() =~= all.take(i as int));
                    }
                    m.insert_first(members[i].0.clone(), members[i].1.duplicate());
                    i = i + 1;
                }
                proof {
                    assert(all.take(members.len() as int) =~= all);
                }
                Ok(m)
            },
            _ => Err(DbtError::Validation(crate::dbt::mismatch("nodes"))),
        }
    }

    /// Reads the manifest from its source: the tool's output (a failed run
    /// gives `ToolFailed` with its stderr) or the cached document.
    pub fn load(src: &ManifestSource) -> (r: Result<DbtManifest, DbtError>)
        ensures
            match r {
                Ok(m) => m.wf() && loaded(*src) == Some(m@),
                Err(e) => loaded(*src) is None && load_fault(*src, e),
            },
    {
        match src {
            ManifestSource::Unavailable(p) => Err(DbtError::SourceUnavailable(p.clone())),
            ManifestSource::Tool(run) => {
                if !run.success {
                    return Err(DbtError::ToolFailed(run.stderr.clone()));
                }
                match normalize(run.stdout.as_slice()) {
                    Ok(j) => DbtManifest::from_tool_document(&j),
                    Err(e) => Err(e),
                }
            },
            ManifestSource::Cache(text) => match parse_json(text.as_str()) {
                Some(doc) => DbtManifest::from_cache_document(&doc),
                None => Err(DbtError::Normalization(text.clone())),
            },
        }
    }
}


/// Whether a descriptor is a model's.
pub open spec fn is_model(d: JsonValue) -> bool {
    field(d, "resource_type"@) == Some(JsonValue::Str("model"@))
}

/// Whether `key` ends with `.` followed by `id`: `id` is its last
/// component.
pub open spec fn names_node(key: Seq<char>, id: Seq<char>) -> bool {
    &&& key.len() > id.len()
    &&& key[key.len() - id.len() - 1] == '.'
    &&& key.subrange(key.len() - id.len(), key.len() as int) == id
}

/// Whether the entry is a model's under `id` itself (`exact`) or under a
/// key whose last component is `id`.
pub open spec fn matches_id(e: (Seq<char>, JsonValue), id: Seq<char>, exact: bool) -> bool {
    is_model(e.1) && if exact {
        e.0 == id
    } else {
        names_node(e.0, id)
    }
}

/// The position of the first entry that matches.
pub open spec fn first_match(m: Seq<(Seq<char>, JsonValue)>, id: Seq<char>, exact: bool) -> Option<int>
    decreases m.len(),
{
    if m.len() == 0 {
        None
    } else {
        match first_match(m.drop_last(), id, exact) {
            Some(i) => Some(i),
            None => if matches_id(m.last(), id, exact) {
                Some(m.len() - 1)
            } else {
                None
            },
        }
    }
}

/// The model that `id` names: the one under that identifier, else the first
/// whose identifier's last component is `id`.
pub open spec fn lookup(m: Seq<(Seq<char>, JsonValue)>, id: Seq<char>) -> Option<int> {
    match first_match(m, id, true) {
        Some(i) => Some(i),
        None => first_match(m, id, false),
    }
}

proof fn lemma_first_match_extend(m: Seq<(Seq<char>, JsonValue)>, k: int, id: Seq<char>, exact: bool)
    requires
        0 <= k <= m.len(),
        first_match(m.take(k), id, exact) is Some,
    ensures
        first_match(m, id, exact) == first_match(m.take(k), id, exact),
    decreases m.len() - k,
{
    if k < m.len() {
        assert(m.take(k + 1).drop_last() =~= m.take(k));
        lemma_first_match_extend(m, k + 1, id, exact);
    } else {
        assert(m.take(k) =~= m);
    }
}

pub(crate) proof fn lemma_first_match_bounds(m: Seq<(Seq<char>, JsonValue)>, id: Seq<char>, exact: bool)
    ensures
        first_match(m, id, exact) matches Some(i) ==> 0 <= i < m.len() && matches_id(
            m[i],
            id,
            exact,
        ),
        first_match(m, id, exact) is None ==> forall|i: int|
            0 <= i < m.len() ==> !matches_id(#[trigger] m[i], id, exact),
        forall|i: int|
            #![trigger m[i]]
            first_match(m, id, exact) matches Some(j) && 0 <= i < j ==> !matches_id(
                m[i],
                id,
                exact,
            ),
    decreases m.len(),
{
    if m.len() > 0 {
        lemma_first_match_bounds(m.drop_last(), id, exact);
        assert forall|i: int| 0 <= i < m.len() - 1 implies m.drop_last()[i] == m[i] by {}
    }
}

/// Whether the descriptor is a model's.
pub fn is_model_exec(d: &Json) -> (r: bool)
    ensures
        r == is_model(d@),
{
    match get_field(d, "resource_type") {
        Some(Json::Str(s)) => {
            let r = same_text(s.as_str(), "model");
            proof {
                if r {
                    assert(field(d@, "resource_type"@) == Some(JsonValue::Str(s@)));
                }
            }
            r
        },
        _ => false,
    }
}

/// Whether `id` is the last component of `key`.
pub fn names_node_exec(key: &str, id: &str) -> (r: bool)
    ensures
        r == names_node(key@, id@),
{
    let k = crate::text::chars_of(key);
    let n = crate::text::chars_of(id);
    if k.len() <= n.len() {
        return false;
    }
    let off = k.len() - n.len();
    if k[off - 1] != '.' {
        return false;
    }
    let mut t: usize = 0;
    while t < n.len()
        invariant
            k@ == key@,
            n@ == id@,
            off == k.len() - n.len(),
            t <= n.len(),
            forall|q: int| 0 <= q < t ==> k@[off + q] == #[trigger] n@[q],
        decreases n.len() - t,
    {
        if k[off + t] != n[t] {
            proof {
                assert(key@.subrange(key@.len() - id@.len(), key@.len() as int)[t as int] != id@[t as int]);
            }
            return false;
        }
        t = t + 1;
    }
    proof {
        assert(key@.subrange(key@.len() - id@.len(), key@.len() as int) =~= id@);
    }
    true
}

impl DbtManifest {
    fn first_match_exec(&self, id: &str, exact: bool) -> (r: Option<usize>)
        ensures
            match r {
                Some(i) => first_match(self@, id@, exact) == Some(i as int),
                None => first_match(self@, id@, exact) is None,
            },
    {
        let n = self.len();
        let mut i: usize = 0;
        proof {
            assert(self@.take(0) =~= Seq::<(Seq<char>, JsonValue)>::empty());
        }
        while i < n
            invariant
                i <= n == self@.len(),
                first_match(self@.take(i as int), id@, exact) is None,
            decreases n - i,
        {
            proof {
                assert(self@.take(i + 1).drop_last() =~= self@.take(i as int));
            }
            let d = self.descriptor_at(i);
            let hit = if is_model_exec(d) {
                if exact {
                    same_text(self.key_at(i).as_str(), id)
                } else {
                    names_node_exec(self.key_at(i).as_str(), id)
                }
            } else {
                false
            };
            if hit {
                proof {
                    lemma_first_match_extend(self@, i + 1, id@, exact);
                }
                return Some(i);
            }
            i = i + 1;
        }
        proof {
            assert(self@.take(n as int) =~= self@);
        }
        None
    }

    /// The position of the model that `id` names: the one under that
    /// identifier, else the first whose identifier's last component is `id`.
    pub fn find_model(&self, id: &str) -> (r: Option<usize>)
        ensures
            match r {
                Some(i) => lookup(self@, id@) == Some(i as int) && i < self@.len(),
                None => lookup(self@, id@) is None,
            },
    {
        proof {
            lemma_first_match_bounds(self@, id@, true);
            lemma_first_match_bounds(self@, id@, false);
        }
        match self.first_match_exec(id, true) {
            Some(i) => Some(i),
            None => self.first_match_exec(id, false),
        }
    }
}

} // verus!
