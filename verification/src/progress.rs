//! The progress document: for each layer identifier, the union of all the
//! progress objects seen for it, later fields over earlier ones.

use crate::codec::JsonError;
use crate::json::{
    distinct_keys, find_member, lemma_distinct_keys_push, lemma_distinct_keys_update,
    lemma_members_last_wins, lemma_members_model_prefix, lemma_members_model_step,
    lemma_members_replace, lemma_members_values, lemma_members_without_key, members_map,
    members_model, upsert_member, Json, JsonModel,
};
use vstd::prelude::*;

verus! {

/// The fields of an object; none for any other value.
pub open spec fn fields_of(value: JsonModel) -> Map<Seq<char>, JsonModel> {
    match value {
        JsonModel::Object(fields) => fields,
        _ => Map::empty(),
    }
}

/// The identifier that a progress object carries: its field `id`, where that
/// is a string.
pub open spec fn update_id(update: JsonModel) -> Option<Seq<char>> {
    match update {
        JsonModel::Object(fields) => if fields.contains_key("id"@) {
            match fields["id"@] {
                JsonModel::String(id) => Some(id),
                _ => None,
            }
        } else {
            None
        },
        _ => None,
    }
}

/// An entry after an update was merged into it: every field of the update is
/// set in the entry, and the entry's other fields stay. Where either is no
/// object the entry stays as it is.
pub open spec fn merged_entry(entry: JsonModel, update: JsonModel) -> JsonModel {
    match (entry, update) {
        (JsonModel::Object(old), JsonModel::Object(new)) => JsonModel::Object(
            old.union_prefer_right(new),
        ),
        _ => entry,
    }
}

/// The entry that a document holds for `id`, or the empty object that an
/// entry starts as.
pub open spec fn entry_or_empty(document: Map<Seq<char>, JsonModel>, id: Seq<char>) -> JsonModel {
    if document.contains_key(id) {
        document[id]
    } else {
        JsonModel::Object(Map::empty())
    }
}

/// A document after one progress object was merged into it. An object that
/// carries no identifier changes nothing.
pub open spec fn merged_document(
    document: Map<Seq<char>, JsonModel>,
    update: JsonModel,
) -> Map<Seq<char>, JsonModel> {
    match update_id(update) {
        Some(id) => document.insert(id, merged_entry(entry_or_empty(document, id), update)),
        None => document,
    }
}

/// Whether a JSON value, if it is an object, names each of its keys once.
pub open spec fn keys_once(json: Json) -> bool {
    json matches Json::Object(members) ==> distinct_keys(members@)
}

/// Merges the fields of `new_json` into `entry`: each field of `new_json`
/// overwrites the field of that name in `entry` or is added to it. Nothing
/// happens unless both are objects.
pub fn merge_entry(entry: &mut Json, new_json: Json)
    ensures
        final(entry)@ == merged_entry(old(entry)@, new_json@),
        keys_once(*old(entry)) ==> keys_once(*final(entry)),
{
    let mut taken = Json::Null;
    std::mem::swap(entry, &mut taken);
    match (taken, new_json) {
        (Json::Object(mut fields), Json::Object(updates)) => {
            let ghost before = fields@;
            let ghost all = updates@;
            for update in it: updates
                invariant
                    it.seq() == all,
                    members_map(fields@) == members_map(before).union_prefer_right(
                        members_model(all, it.index() as nat),
                    ),
                    distinct_keys(before) ==> distinct_keys(fields@),
            {
                proof {
                    lemma_members_model_step(all, (it.index() + 1) as nat);
                }
                upsert_member(&mut fields, update.0, update.1);
            }
            *entry = Json::Object(fields);
        },
        (other, _) => {
            *entry = other;
        },
    }
}

/// The cumulative progress of one pull: one entry for each layer identifier
/// seen so far.
#[derive(Debug, PartialEq, Eq)]
pub struct ProgressDocument {
    root: Json,
}

impl View for ProgressDocument {
    type V = Map<Seq<char>, JsonModel>;

    /// The entries, by layer identifier.
    closed spec fn view(&self) -> Map<Seq<char>, JsonModel> {
        fields_of(self.root@)
    }
}

impl ProgressDocument {
    /// Whether the document is an object that names each identifier once and
    /// whose entries are objects that name each field once.
    pub closed spec fn wf(&self) -> bool {
        &&& self.root matches Json::Object(entries)
        &&& distinct_keys(entries@)
        &&& forall|i: int|
            0 <= i < entries@.len() ==> (#[trigger] entries@[i]).1@ is Object && keys_once(
                entries@[i].1,
            )
    }

    /// The document as one JSON value.
    pub closed spec fn json(&self) -> JsonModel {
        self.root@
    }

    /// A document with no entry.
    pub fn new() -> (document: ProgressDocument)
        ensures
            document@ == Map::<Seq<char>, JsonModel>::empty(),
            document.wf(),
    {
        ProgressDocument { root: Json::Object(Vec::new()) }
    }

    /// The document as one JSON object, with a member for each entry.
    pub fn as_json(&self) -> (root: &Json)
        ensures
            root@ == self.json(),
            fields_of(root@) == self@,
    {
        &self.root
    }

    /// The entry for the layer `id`, if there is one.
    pub fn get(&self, id: &str) -> (entry: Option<&Json>)
        ensures
            match entry {
                Some(entry) => self@.contains_key(id@) && entry@ == self@[id@],
                None => !self@.contains_key(id@),
            },
    {
        self.root.get(id)
    }

    /// A well-formed document is the object of its entries, and each entry is
    /// an object.
    pub proof fn lemma_wf(&self)
        requires
            self.wf(),
        ensures
            self.json() == JsonModel::Object(self@),
            forall|id: Seq<char>| self@.contains_key(id) ==> (#[trigger] self@[id]) is Object,
    {
        let entries = self.root->Object_0;
        assert forall|id: Seq<char>| self@.contains_key(id) implies (
        #[trigger] self@[id]) is Object by {
            lemma_members_values(entries@, id, entries@.len());
        }
    }
}

/// Merges one progress object into the document. The object's identifier is
/// its field `id`, a string; an object without one is dropped and the
/// document stays as it is. Otherwise the entry for the identifier, created
/// as an empty object where it is new, takes every field of the object.
pub fn merge_json_by_id(accumulated: &mut ProgressDocument, new_json: Json)
    ensures
        final(accumulated)@ == merged_document(old(accumulated)@, new_json@),
        update_id(new_json@) is None ==> *final(accumulated) == *old(accumulated),
        old(accumulated).wf() ==> final(accumulated).wf(),
{
    let id: String = match new_json.get("id") {
        Some(value) => match value.as_str() {
            Some(text) => text.to_owned(),
            None => {
                return ;
            },
        },
        None => {
            return ;
        },
    };
    let mut root = Json::Null;
    std::mem::swap(&mut accumulated.root, &mut root);
    let mut entries: Vec<(String, Json)> = match root {
        Json::Object(entries) => entries,
        _ => Vec::new(),
    };
    let ghost before = entries@;
    match find_member(&entries, id.as_str()) {
        Some(at) => {
            let (key, mut entry) = entries.remove(at);
            merge_entry(&mut entry, new_json);
            proof {
                lemma_members_last_wins(before, id@, at as int, before.len());
                lemma_members_replace(before, at as int, (key, entry), before.len());
                if distinct_keys(before) {
                    lemma_distinct_keys_update(before, at as int, (key, entry));
                }
            }
            entries.insert(at, (key, entry));
            assert(entries@ =~= before.update(at as int, (key, entry)));
        },
        None => {
            let mut entry = Json::Object(Vec::new());
            merge_entry(&mut entry, new_json);
            proof {
                lemma_members_without_key(before, id@, before.len());
                lemma_members_model_prefix(before, before.push((id, entry)), before.len());
                lemma_members_model_step(before.push((id, entry)), before.len() + 1);
                if distinct_keys(before) {
                    lemma_distinct_keys_push(before, (id, entry));
                }
            }
            entries.push((id, entry));
        },
    }
    accumulated.root = Json::Object(entries);
}

/// A document after a run of progress objects was merged into it, one after
/// the other.
pub open spec fn merged_all(
    document: Map<Seq<char>, JsonModel>,
    updates: Seq<JsonModel>,
) -> Map<Seq<char>, JsonModel>
    decreases updates.len(),
{
    if updates.len() == 0 {
        document
    } else {
        merged_document(merged_all(document, updates.drop_last()), updates.last())
    }
}

/// The union of the fields of a run of objects, later objects over earlier
/// ones.
pub open spec fn union_of(updates: Seq<JsonModel>) -> Map<Seq<char>, JsonModel>
    decreases updates.len(),
{
    if updates.len() == 0 {
        Map::empty()
    } else {
        union_of(updates.drop_last()).union_prefer_right(fields_of(updates.last()))
    }
}

/// The place of the last object of `updates` that has a field `key`.
pub open spec fn last_writer(updates: Seq<JsonModel>, key: Seq<char>) -> Option<int>
    decreases updates.len(),
{
    if updates.len() == 0 {
        None
    } else if fields_of(updates.last()).contains_key(key) {
        Some(updates.len() - 1)
    } else {
        last_writer(updates.drop_last(), key)
    }
}

/// Whether every object of `updates` carries the identifier `id`.
pub open spec fn all_carry(updates: Seq<JsonModel>, id: Seq<char>) -> bool {
    forall|i: int| 0 <= i < updates.len() ==> update_id(#[trigger] updates[i]) == Some(id)
}

/// An object without an identifier leaves the document as it is.
pub proof fn lemma_update_without_id(document: Map<Seq<char>, JsonModel>, update: JsonModel)
    requires
        update_id(update) is None,
    ensures
        merged_document(document, update) == document,
{
}

/// Nothing is ever removed: after a merge every entry is still there, and an
/// entry that is an object still has every field it had.
pub proof fn lemma_merge_keeps_fields(
    document: Map<Seq<char>, JsonModel>,
    update: JsonModel,
    id: Seq<char>,
    key: Seq<char>,
)
    requires
        document.contains_key(id),
    ensures
        merged_document(document, update).contains_key(id),
        fields_of(document[id]).contains_key(key) ==> fields_of(
            merged_document(document, update)[id],
        ).contains_key(key),
{
}

/// Merging a run of objects that all carry the identifier `id` changes the
/// entry for `id` and no other: the entry becomes the union of the fields it
/// had and the fields of the objects, later ones over earlier ones.
pub proof fn lemma_merge_same_id(
    document: Map<Seq<char>, JsonModel>,
    updates: Seq<JsonModel>,
    id: Seq<char>,
)
    requires
        updates.len() > 0,
        all_carry(updates, id),
        document.contains_key(id) ==> document[id] is Object,
    ensures
        merged_all(document, updates) == document.insert(
            id,
            JsonModel::Object(
                fields_of(entry_or_empty(document, id)).union_prefer_right(union_of(updates)),
            ),
        ),
    decreases updates.len(),
{
    let start = fields_of(entry_or_empty(document, id));
    let last = fields_of(updates.last());
    let earlier = updates.drop_last();
    if updates.len() == 1 {
        assert(merged_all(document, earlier) == document);
        assert(union_of(earlier) =~= Map::<Seq<char>, JsonModel>::empty());
        assert(start.union_prefer_right(union_of(updates)) =~= start.union_prefer_right(last));
    } else {
        assert(all_carry(earlier, id)) by {
            assert forall|i: int| 0 <= i < earlier.len() implies update_id(#[trigger] earlier[i])
                == Some(id) by {
                assert(earlier[i] == updates[i]);
            }
        }
        lemma_merge_same_id(document, earlier, id);
        assert(start.union_prefer_right(union_of(earlier)).union_prefer_right(last)
            =~= start.union_prefer_right(union_of(updates)));
    }
}

/// Last write wins, field by field: in the union of a run of objects a field
/// has the value that the last object with that field gives it, and fields
/// that no object has are not in it.
pub proof fn lemma_union_last_write_wins(updates: Seq<JsonModel>, key: Seq<char>)
    ensures
        match last_writer(updates, key) {
            Some(at) => 0 <= at < updates.len() && fields_of(updates[at]).contains_key(key)
                && union_of(updates).contains_key(key) && union_of(updates)[key] == fields_of(
                updates[at],
            )[key] && forall|j: int|
                at < j < updates.len() ==> !fields_of(#[trigger] updates[j]).contains_key(key),
            None => !union_of(updates).contains_key(key) && forall|j: int|
                0 <= j < updates.len() ==> !fields_of(#[trigger] updates[j]).contains_key(key),
        },
    decreases updates.len(),
{
    if updates.len() > 0 {
        let earlier = updates.drop_last();
        lemma_union_last_write_wins(earlier, key);
        if !fields_of(updates.last()).contains_key(key) {
            match last_writer(earlier, key) {
                Some(at) => {
                    assert forall|j: int| at < j < updates.len() implies !fields_of(
                        #[trigger] updates[j],
                    ).contains_key(key) by {
                        if j < earlier.len() {
                            assert(earlier[j] == updates[j]);
                        }
                    }
                },
                None => {
                    assert forall|j: int| 0 <= j < updates.len() implies !fields_of(
                        #[trigger] updates[j],
                    ).contains_key(key) by {
                        if j < earlier.len() {
                            assert(earlier[j] == updates[j]);
                        }
                    }
                },
            }
        }
    }
}

/// The entry for `id` after a run of objects that all carry `id`, field by
/// field: a field that some object of the run has holds the value from the
/// last object that has it; any other field is as it was before.
pub proof fn lemma_merge_field_wise(
    document: Map<Seq<char>, JsonModel>,
    updates: Seq<JsonModel>,
    id: Seq<char>,
    key: Seq<char>,
)
    requires
        updates.len() > 0,
        all_carry(updates, id),
        document.contains_key(id) ==> document[id] is Object,
    ensures
        merged_all(document, updates).contains_key(id),
        ({
            let before = fields_of(entry_or_empty(document, id));
            let after = fields_of(merged_all(document, updates)[id]);
            match last_writer(updates, key) {
                Some(at) => after.contains_key(key) && after[key] == fields_of(updates[at])[key],
                None => after.contains_key(key) == before.contains_key(key) && (
                before.contains_key(key) ==> after[key] == before[key]),
            }
        }),
{
    lemma_merge_same_id(document, updates, id);
    lemma_union_last_write_wins(updates, key);
}

/// Merging is associative over two updates that follow each other: merging
/// `first` and then `second` into an entry is merging, once, `second` merged
/// into `first`.
pub proof fn lemma_merged_entry_associative(entry: JsonModel, first: JsonModel, second: JsonModel)
    requires
        first is Object,
    ensures
        merged_entry(merged_entry(entry, first), second) == merged_entry(
            entry,
            merged_entry(first, second),
        ),
{
    if entry is Object && second is Object {
        let a = fields_of(entry);
        let b = fields_of(first);
        let c = fields_of(second);
        assert(a.union_prefer_right(b).union_prefer_right(c) =~= a.union_prefer_right(
            b.union_prefer_right(c),
        ));
    }
}

/// The same for documents: two objects with one identifier, merged one after
/// the other, give the document that their own merge gives, and that merge
/// carries the identifier too.
pub proof fn lemma_merge_associative(
    document: Map<Seq<char>, JsonModel>,
    first: JsonModel,
    second: JsonModel,
)
    requires
        update_id(first) is Some,
        update_id(first) == update_id(second),
    ensures
        update_id(merged_entry(first, second)) == update_id(first),
        merged_document(merged_document(document, first), second) == merged_document(
            document,
            merged_entry(first, second),
        ),
{
    let id = update_id(first)->0;
    let entry = entry_or_empty(document, id);
    lemma_merged_entry_associative(entry, first, second);
}

/// The values among some parse results, in order.
pub open spec fn ok_updates(results: Seq<Result<Json, JsonError>>) -> Seq<JsonModel>
    decreases results.len(),
{
    if results.len() == 0 {
        Seq::empty()
    } else {
        match results.last() {
            Ok(json) => ok_updates(results.drop_last()).push(json@),
            Err(_) => ok_updates(results.drop_last()),
        }
    }
}

/// The errors among some parse results, in order.
pub open spec fn errors_of(results: Seq<Result<Json, JsonError>>) -> Seq<JsonError>
    decreases results.len(),
{
    if results.len() == 0 {
        Seq::empty()
    } else {
        match results.last() {
            Ok(_) => errors_of(results.drop_last()),
            Err(error) => errors_of(results.drop_last()).push(error),
        }
    }
}

/// Merges every value among `results` into the document, in order, and
/// hands back the errors among them. An error stops nothing: the results
/// after it are merged as well.
pub fn apply_updates(
    document: &mut ProgressDocument,
    results: Vec<Result<Json, JsonError>>,
) -> (failures: Vec<JsonError>)
    ensures
        final(document)@ == merged_all(old(document)@, ok_updates(results@)),
        failures@ == errors_of(results@),
        old(document).wf() ==> final(document).wf(),
{
    let ghost all = results@;
    let ghost start = document@;
    let mut failures: Vec<JsonError> = Vec::new();
    for result in it: results
        invariant
            it.seq() == all,
            document@ == merged_all(start, ok_updates(all.take(it.index() as int))),
            failures@ == errors_of(all.take(it.index() as int)),
            old(document).wf() ==> document.wf(),
    {
        proof {
            let done = it.index() as int;
            let ghost merged = ok_updates(all.take(done));
            assert(all.take(done + 1).drop_last() =~= all.take(done));
            if result is Ok {
                assert(merged.push(result->Ok_0@).drop_last() =~= merged);
            }
        }
        match result {
            Ok(json) => {
                merge_json_by_id(document, json);
            },
            Err(error) => {
                failures.push(error);
            },
        }
    }
    assert(all.take(all.len() as int) =~= all);
    failures
}

} // verus!
