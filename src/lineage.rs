//! The lineage resolver: the nodes that the build tool lists between two
//! anchors, each read once, the first of each identifier kept.

use vstd::prelude::*;
use crate::dbt::{
    node_matches, node_ok, parse_node, required_text, sub_field, text_or_empty, texts_or_empty,
    Node,
};
use crate::fields::{opt_text, opt_text_view, opt_texts, texts_view};
use crate::json::{field, items_model, json_model, Json, JsonValue};
use crate::models::{descriptors, ToolRun};
use crate::text::{normalize, normalized};

verus! {

/// The nodes a lineage entry depends on.
#[derive(Debug, Clone, PartialEq)]
pub struct Dependencies {
    pub nodes: Vec<String>,
}

/// What the lineage tells of one node.
#[derive(Debug, Clone, PartialEq)]
pub struct ModelMetadata {
    pub unique_id: String,
    pub name: String,
    pub schema: String,
    pub materialization: Option<String>,
    pub tags: Vec<String>,
    pub depends_on: Dependencies,
}

/// The nodes between two anchors.
#[derive(Debug, Clone, PartialEq)]
pub struct Lineage {
    pub models: Vec<ModelMetadata>,
}

/// The selection that asks the build tool for what lies upstream of `start`
/// and downstream of `end`: `start+,+end`.
pub fn lineage_query(start: &str, end: &str) -> (r: String)
    ensures
        r@ == start@ + "+,+"@ + end@,
{
    let mut q = start.to_owned();
    q.append("+,+");
    q.append(end);
    q
}

/// The arguments that make the build tool list that selection as JSON.
pub fn lineage_args(start: &str, end: &str) -> (r: Vec<String>)
    ensures
        r@.map_values(|a: String| a@) == seq![
            "ls"@,
            "--output"@,
            "json"@,
            "--models"@,
            start@ + "+,+"@ + end@,
        ],
{
    let mut args: Vec<String> = Vec::new();
    args.push("ls".to_owned());
    args.push("--output".to_owned());
    args.push("json".to_owned());
    args.push("--models".to_owned());
    args.push(lineage_query(start, end));
    proof {
        assert(args@.map_values(|a: String| a@) =~= seq![
            "ls"@,
            "--output"@,
            "json"@,
            "--models"@,
            start@ + "+,+"@ + end@,
        ]);
    }
    args
}

/// The descriptors that a run of the tool listed; none where it failed or
/// wrote no JSON.
pub open spec fn listed(run: ToolRun) -> Seq<JsonValue> {
    if !run.success {
        Seq::empty()
    } else {
        match normalized(run.stdout@) {
            Some(j) => descriptors(j),
            None => Seq::empty(),
        }
    }
}

pub open spec fn uid(d: JsonValue) -> Seq<char> {
    required_text(field(d, "unique_id"@))->0
}

/// The listed descriptors that are accepted as nodes, the first of each
/// `unique_id` kept, in the order listed.
pub open spec fn lineage_nodes(ds: Seq<JsonValue>) -> Seq<JsonValue>
    decreases ds.len(),
{
    if ds.len() == 0 {
        Seq::empty()
    } else {
        let r = lineage_nodes(ds.drop_last());
        let d = ds.last();
        if node_ok(d) && !(exists|k: int| 0 <= k < r.len() && uid(#[trigger] r[k]) == uid(d)) {
            r.push(d)
        } else {
            r
        }
    }
}

/// Whether `md` tells what the descriptor `d` says: its identifier, name,
/// schema, materialization, tags and the nodes it depends on.
pub open spec fn metadata_matches(md: ModelMetadata, d: JsonValue) -> bool {
    &&& md.unique_id@ == uid(d)
    &&& md.name@ == required_text(field(d, "name"@))->0
    &&& md.schema@ == text_or_empty(opt_text(sub_field(field(d, "config"@), "schema"@))->0)
    &&& opt_text_view(md.materialization) == opt_text(
        sub_field(field(d, "config"@), "materialized"@),
    )->0
    &&& texts_view(md.tags) == texts_or_empty(opt_texts(field(d, "tags"@))->0)
    &&& texts_view(md.depends_on.nodes) == texts_or_empty(
        opt_texts(sub_field(field(d, "depends_on"@), "nodes"@))->0,
    )
}

/// What the lineage tells of a node.
pub fn metadata_of(n: Node) -> (r: ModelMetadata)
    ensures
        forall|d: JsonValue|
            node_ok(d) && node_matches(n, d) ==> #[trigger] metadata_matches(r, d),
{
    let schema = match n.config.schema {
        Some(s) => s,
        None => String::new(),
    };
    let nodes = match n.depends_on.nodes {
        Some(v) => v,
        None => {
            let none: Vec<String> = Vec::new();
            proof {
                assert(texts_view(none) =~= Seq::<Seq<char>>::empty());
            }
            none
        },
    };
    ModelMetadata {
        unique_id: n.unique_id,
        name: n.name,
        schema,
        materialization: n.config.materialized,
        tags: n.tags,
        depends_on: Dependencies { nodes },
    }
}

fn already_listed(models: &Vec<ModelMetadata>, id: &String) -> (r: bool)
    ensures
        r == exists|k: int| 0 <= k < models.len() && (#[trigger] models@[k]).unique_id@ == id@,
{
    let mut i: usize = 0;
    while i < models.len()
        invariant
            i <= models.len(),
            forall|k: int| 0 <= k < i ==> (#[trigger] models@[k]).unique_id@ != id@,
        decreases models.len() - i,
    {
        if models[i].unique_id == *id {
            return true;
        }
        i = i + 1;
    }
    false
}

/// The lineage of the descriptors: each one accepted as a node, read once,
/// the first of each `unique_id` kept; a refused one is left out.
pub fn lineage_of(ds: &Vec<Json>) -> (r: Lineage)
    ensures
        r.models.len() == lineage_nodes(items_model(ds@)).len(),
        forall|i: int|
            0 <= i < r.models.len() ==> metadata_matches(
                #[trigger] r.models@[i],
                lineage_nodes(items_model(ds@))[i],
            ),
        forall|i: int, j: int|
            0 <= i < j < r.models.len() ==> (#[trigger] r.models@[i]).unique_id@
                != (#[trigger] r.models@[j]).unique_id@,
{
    let ghost all = items_model(ds@);
    let mut models: Vec<ModelMetadata> = Vec::new();
    let mut i: usize = 0;
    proof {
        crate::json::lemma_items_model_len(ds@);
        assert(all.take(0) =~= Seq::<JsonValue>::empty());
    }
    while i < ds.len()
        invariant
            i <= ds.len() == all.len(),
            all == items_model(ds@),
            models.len() == lineage_nodes(all.take(i as int)).len(),
            forall|k: int|
                0 <= k < models.len() ==> metadata_matches(
                    #[trigger] models@[k],
                    lineage_nodes(all.take(i as int))[k],
                ),
            forall|a: int, b: int|
                0 <= a < b < models.len() ==> (#[trigger] models@[a]).unique_id@
                    != (#[trigger] models@[b]).unique_id@,
        decreases ds.len() - i,
    {
        proof {
            crate::json::lemma_items_model_index(ds@, i as int);
            assert(all.take(i + 1).drop_last() =~= all.take(i as int));
        }
        let ghost sel = lineage_nodes(all.take(i as int));
        let ghost d = all[i as int];
        match parse_node(&ds[i]) {
            Ok(n) => {
                if !already_listed(&models, &n.unique_id) {
                    let md = metadata_of(n);
                    proof {
                        assert(metadata_matches(md, d));
                        assert forall|k: int| 0 <= k < sel.len() implies uid(#[trigger] sel[k]) != uid(d) by {
                            assert(metadata_matches(models@[k], sel[k]));
                        }
                    }
                    models.push(md);
                    proof {
                        assert(lineage_nodes(all.take(i + 1)) == sel.push(d));
                    }
                } else {
                    proof {
                        let k = choose|k: int| 0 <= k < models.len() && (#[trigger] models@[k]).unique_id@ == n.unique_id@;
                        assert(metadata_matches(models@[k], sel[k]));
                        assert(uid(sel[k]) == uid(d));
                    }
                }
            },
            Err(_) => {},
        }
        i = i + 1;
    }
    proof {
        assert(all.take(ds.len() as int) =~= all);
    }
    Lineage { models }
}

/// The lineage that a run of the tool listed: empty where the run failed or
/// wrote no JSON, since a partial answer serves better than none.
pub fn get_lineage(run: &ToolRun) -> (r: Lineage)
    ensures
        r.models.len() == lineage_nodes(listed(*run)).len(),
        forall|i: int|
            0 <= i < r.models.len() ==> metadata_matches(
                #[trigger] r.models@[i],
                lineage_nodes(listed(*run))[i],
            ),
        forall|i: int, j: int|
            0 <= i < j < r.models.len() ==> (#[trigger] r.models@[i]).unique_id@
                != (#[trigger] r.models@[j]).unique_id@,
{
    let none = Lineage { models: Vec::new() };
    if !run.success {
        return none;
    }
    let j = match normalize(run.stdout.as_slice()) {
        Ok(j) => j,
        Err(_) => return none,
    };
    match j {
        Json::Array(items) => lineage_of(&items),
        other => {
            let ghost d = other@;
            let mut single: Vec<Json> = Vec::new();
            single.push(other);
            proof {
                assert(single@.drop_last() =~= Seq::<Json>::empty());
                assert(items_model(Seq::<Json>::empty()) == Seq::<JsonValue>::empty());
                assert(json_model(single@.last()) == d);
                assert(items_model(single@) =~= seq![d]);
            }
            lineage_of(&single)
        },
    }
}

} // verus!
