//! The snapshot document: how the three keyspaces are read from a JSON
//! document and written as one.
use vstd::prelude::*;
use crate::redis_engine::command_execution::hash::{hash_wf, FieldModel, Hashes, HashModel};
use crate::redis_engine::command_execution::kvp::{KeyValueModel, KeyValuePairs};
use crate::redis_engine::command_execution::list::{List, ListModel};
use crate::redis_engine::json::{json_parse, json_pretty, json_stored, Json, JsonModel};
use crate::redis_engine::table::{
    assoc_get, assoc_put, lemma_assoc_index_is, lemma_assoc_index_none, Table,
};
use crate::redis_engine::util::{same_text, RedisValue, Text};

verus! {

/// The members of an object, each with its name.
pub type Members = Seq<(Text, JsonModel)>;

/// The members that a vector of members holds.
pub open spec fn members_view(members: Vec<(String, Json)>) -> Members {
    Seq::new(members.len() as nat, |i: int| (members[i].0@, members[i].1.deep_view()))
}

/// The documents that a vector of documents holds.
pub open spec fn items_view(items: Vec<Json>) -> Seq<JsonModel> {
    Seq::new(items.len() as nat, |i: int| items[i].deep_view())
}

/// An object is seen as its members.
pub proof fn lemma_object_view(members: Vec<(String, Json)>)
    ensures
        Json::Object(members).deep_view() == JsonModel::Object(members_view(members)),
{
    let tree = Json::Object(members);
    let seen = tree.deep_view()->Object_0;
    assert(seen.len() == members.len());
    assert forall|i: int| 0 <= i < members.len() implies seen[i] == members_view(members)[i] by {
        assert(seen[i].0 == members[i].0@);
        assert(seen[i].1 == members[i].1.deep_view());
    }
    assert(seen =~= members_view(members));
}

/// An array is seen as its items.
pub proof fn lemma_array_view(items: Vec<Json>)
    ensures
        Json::Array(items).deep_view() == JsonModel::Array(items_view(items)),
{
    assert(Json::Array(items).deep_view()->Array_0 =~= items_view(items));
}

/// The text that a document stands for as a stored value: a text itself, or
/// a number by its literal. No other document is a stored value.
pub open spec fn scalar_text(doc: JsonModel) -> Option<Text> {
    match doc {
        JsonModel::Text(s) => Some(s),
        JsonModel::Number(n) => Some(n),
        _ => None,
    }
}

/// The texts that an array of stored values stands for.
pub open spec fn decode_array(doc: JsonModel) -> Option<Seq<Text>> {
    match doc {
        JsonModel::Array(items) => if forall|i: int|
            0 <= i < items.len() ==> scalar_text(#[trigger] items[i]) is Some {
            Some(Seq::new(items.len(), |i: int| scalar_text(items[i])->0))
        } else {
            None
        },
        _ => None,
    }
}

/// The entries that the pairs make when they are put into an empty table one
/// after the other: a name that comes again keeps its place and takes the
/// later value.
pub open spec fn assoc_from<T>(pairs: Seq<(Text, T)>) -> Seq<(Text, T)>
    decreases pairs.len(),
{
    if pairs.len() == 0 {
        Seq::empty()
    } else {
        assoc_put(assoc_from(pairs.drop_last()), pairs.last().0, pairs.last().1)
    }
}

/// The fields that an object of stored values stands for.
pub open spec fn decode_fields(doc: JsonModel) -> Option<FieldModel> {
    match doc {
        JsonModel::Object(members) => if forall|i: int|
            0 <= i < members.len() ==> scalar_text((#[trigger] members[i]).1) is Some {
            Some(
                assoc_from(
                    Seq::new(members.len(), |i: int| (members[i].0, scalar_text(members[i].1)->0)),
                ),
            )
        } else {
            None
        },
        _ => None,
    }
}

/// The list keyspace that an object of arrays stands for.
pub open spec fn decode_lists(doc: JsonModel) -> Option<ListModel> {
    match doc {
        JsonModel::Object(members) => if forall|i: int|
            0 <= i < members.len() ==> decode_array((#[trigger] members[i]).1) is Some {
            Some(
                assoc_from(
                    Seq::new(members.len(), |i: int| (members[i].0, decode_array(members[i].1)->0)),
                ),
            )
        } else {
            None
        },
        _ => None,
    }
}

/// The hash keyspace that an object of objects stands for.
pub open spec fn decode_hashes(doc: JsonModel) -> Option<HashModel> {
    match doc {
        JsonModel::Object(members) => if forall|i: int|
            0 <= i < members.len() ==> decode_fields((#[trigger] members[i]).1) is Some {
            Some(
                assoc_from(
                    Seq::new(
                        members.len(),
                        |i: int| (members[i].0, decode_fields(members[i].1)->0),
                    ),
                ),
            )
        } else {
            None
        },
        _ => None,
    }
}

/// Reads a stored value from a document.
pub fn read_scalar(doc: &Json) -> (out: Option<RedisValue>)
    ensures
        match out {
            Some(v) => scalar_text(doc.deep_view()) == Some(v@),
            None => scalar_text(doc.deep_view()) is None,
        },
{
    match doc {
        Json::Text(s) => Some(RedisValue::from_str(s.as_str())),
        Json::Number(n) => Some(RedisValue::from_str(n.as_str())),
        _ => None,
    }
}

/// Reads a list of stored values from a document.
pub fn read_array(doc: &Json) -> (out: Option<Vec<RedisValue>>)
    ensures
        match out {
            Some(v) => decode_array(doc.deep_view()) == Some(v.deep_view()),
            None => decode_array(doc.deep_view()) is None,
        },
{
    match doc {
        Json::Array(items) => {
            proof {
                lemma_array_view(*items);
            }
            let ghost model = items_view(*items);
            let mut out: Vec<RedisValue> = Vec::new();
            let mut i: usize = 0;
            while i < items.len()
                invariant
                    i <= items.len(),
                    model == items_view(*items),
                    doc.deep_view() == JsonModel::Array(model),
                    out.len() == i,
                    forall|j: int| 0 <= j < i ==> scalar_text(#[trigger] model[j]) == Some(out[j]@),
                decreases items.len() - i,
            {
                match read_scalar(&items[i]) {
                    Some(v) => {
                        out.push(v);
                    },
                    None => {
                        assert(scalar_text(model[i as int]) is None);
                        return None;
                    },
                }
                i += 1;
            }
            assert(out.deep_view() =~= Seq::new(model.len(), |i: int| scalar_text(model[i])->0));
            Some(out)
        },
        _ => None,
    }
}

/// Reads the fields of one hash, or the string keyspace, from a document.
pub fn read_fields(doc: &Json) -> (out: Option<Table<RedisValue>>)
    ensures
        match out {
            Some(t) => t.wf() && decode_fields(doc.deep_view()) == Some(t.deep_view()),
            None => decode_fields(doc.deep_view()) is None,
        },
{
    match doc {
        Json::Object(members) => {
            proof {
                lemma_object_view(*members);
            }
            let ghost model = members_view(*members);
            let ghost pairs = Seq::new(
                model.len(),
                |i: int| (model[i].0, scalar_text(model[i].1)->0),
            );
            let mut out: Table<RedisValue> = Table::new();
            let mut i: usize = 0;
            assert(pairs.take(0) =~= Seq::empty());
            while i < members.len()
                invariant
                    i <= members.len(),
                    model == members_view(*members),
                    doc.deep_view() == JsonModel::Object(model),
                    pairs == Seq::new(model.len(), |i: int| (model[i].0, scalar_text(model[i].1)->0)),
                    out.wf(),
                    out.deep_view() == assoc_from(pairs.take(i as int)),
                    forall|j: int| 0 <= j < i ==> scalar_text((#[trigger] model[j]).1) is Some,
                decreases members.len() - i,
            {
                match read_scalar(&members[i].1) {
                    Some(v) => {
                        proof {
                            let next = pairs.take(i + 1);
                            assert(next.drop_last() =~= pairs.take(i as int));
                            assert(next.last() == (members[i as int].0@, v@));
                        }
                        out.insert(members[i].0.clone(), v);
                    },
                    None => {
                        assert(scalar_text(model[i as int].1) is None);
                        return None;
                    },
                }
                i += 1;
            }
            assert(pairs.take(members.len() as int) =~= pairs);
            Some(out)
        },
        _ => None,
    }
}

/// Reads the list keyspace from a document.
pub fn read_lists(doc: &Json) -> (out: Option<List>)
    ensures
        match out {
            Some(t) => t.wf() && decode_lists(doc.deep_view()) == Some(t.deep_view()),
            None => decode_lists(doc.deep_view()) is None,
        },
{
    match doc {
        Json::Object(members) => {
            proof {
                lemma_object_view(*members);
            }
            let ghost model = members_view(*members);
            let ghost pairs = Seq::new(
                model.len(),
                |i: int| (model[i].0, decode_array(model[i].1)->0),
            );
            let mut out: List = Table::new();
            let mut i: usize = 0;
            assert(pairs.take(0) =~= Seq::empty());
            while i < members.len()
                invariant
                    i <= members.len(),
                    model == members_view(*members),
                    doc.deep_view() == JsonModel::Object(model),
                    pairs == Seq::new(
                        model.len(),
                        |i: int| (model[i].0, decode_array(model[i].1)->0),
                    ),
                    out.wf(),
                    out.deep_view() == assoc_from(pairs.take(i as int)),
                    forall|j: int| 0 <= j < i ==> decode_array((#[trigger] model[j]).1) is Some,
                decreases members.len() - i,
            {
                match read_array(&members[i].1) {
                    Some(v) => {
                        proof {
                            let next = pairs.take(i + 1);
                            assert(next.drop_last() =~= pairs.take(i as int));
                            assert(next.last() == (members[i as int].0@, v.deep_view()));
                        }
                        out.insert(members[i].0.clone(), v);
                    },
                    None => {
                        assert(decode_array(model[i as int].1) is None);
                        return None;
                    },
                }
                i += 1;
            }
            assert(pairs.take(members.len() as int) =~= pairs);
            Some(out)
        },
        _ => None,
    }
}

/// Reads the hash keyspace from a document.
pub fn read_hashes(doc: &Json) -> (out: Option<Hashes>)
    ensures
        match out {
            Some(t) => hash_wf(&t) && decode_hashes(doc.deep_view()) == Some(t.deep_view()),
            None => decode_hashes(doc.deep_view()) is None,
        },
{
    match doc {
        Json::Object(members) => {
            proof {
                lemma_object_view(*members);
            }
            let ghost model = members_view(*members);
            let ghost pairs = Seq::new(
                model.len(),
                |i: int| (model[i].0, decode_fields(model[i].1)->0),
            );
            let mut out: Hashes = Table::new();
            let mut i: usize = 0;
            assert(pairs.take(0) =~= Seq::empty());
            while i < members.len()
                invariant
                    i <= members.len(),
                    model == members_view(*members),
                    doc.deep_view() == JsonModel::Object(model),
                    pairs == Seq::new(
                        model.len(),
                        |i: int| (model[i].0, decode_fields(model[i].1)->0),
                    ),
                    hash_wf(&out),
                    out.deep_view() == assoc_from(pairs.take(i as int)),
                    forall|j: int| 0 <= j < i ==> decode_fields((#[trigger] model[j]).1) is Some,
                decreases members.len() - i,
            {
                match read_fields(&members[i].1) {
                    Some(v) => {
                        proof {
                            let next = pairs.take(i + 1);
                            assert(next.drop_last() =~= pairs.take(i as int));
                            assert(next.last() == (members[i as int].0@, v.deep_view()));
                        }
                        out.insert(members[i].0.clone(), v);
                    },
                    None => {
                        assert(decode_fields(model[i as int].1) is None);
                        return None;
                    },
                }
                i += 1;
            }
            assert(pairs.take(members.len() as int) =~= pairs);
            Some(out)
        },
        _ => None,
    }
}

/// The first member of an object under the given name.
pub open spec fn member(doc: JsonModel, name: Text) -> Option<JsonModel> {
    match doc {
        JsonModel::Object(members) => assoc_get(members, name),
        _ => None,
    }
}

/// Finds the first member of an object under the given name.
pub fn find_member<'a>(doc: &'a Json, name: &str) -> (out: Option<&'a Json>)
    ensures
        match out {
            Some(found) => member(doc.deep_view(), name@) == Some(found.deep_view()),
            None => member(doc.deep_view(), name@) is None,
        },
{
    match doc {
        Json::Object(members) => {
            proof {
                lemma_object_view(*members);
            }
            let ghost model = members_view(*members);
            let mut i: usize = 0;
            while i < members.len()
                invariant
                    i <= members.len(),
                    model == members_view(*members),
                    doc.deep_view() == JsonModel::Object(model),
                    forall|j: int| 0 <= j < i ==> (#[trigger] model[j]).0 != name@,
                decreases members.len() - i,
            {
                if same_text(members[i].0.as_str(), name) {
                    proof {
                        lemma_assoc_index_is(model, name@, i as int);
                    }
                    return Some(&members[i].1);
                }
                i += 1;
            }
            proof {
                lemma_assoc_index_none(model, name@);
            }
            None
        },
        _ => None,
    }
}

/// The three keyspaces as the contracts see them.
pub struct StoreModel {
    pub strings: KeyValueModel,
    pub lists: ListModel,
    pub hashes: HashModel,
}

/// The keyspaces that a snapshot document stands for: its members
/// `key_value_pairs`, `lists` and `hashes`, each read as its keyspace. A
/// document that lacks one of them, or holds anything that is no stored
/// value where one belongs, stands for none.
pub open spec fn decode_document(doc: JsonModel) -> Option<StoreModel> {
    match (
        member(doc, "key_value_pairs"@),
        member(doc, "lists"@),
        member(doc, "hashes"@),
    ) {
        (Some(strings), Some(lists), Some(hashes)) => match (
            decode_fields(strings),
            decode_lists(lists),
            decode_hashes(hashes),
        ) {
            (Some(strings), Some(lists), Some(hashes)) => Some(
                StoreModel { strings, lists, hashes },
            ),
            _ => None,
        },
        _ => None,
    }
}

/// The object that holds each entry of the string keyspace, or each field of
/// one hash, as a text under its name.
pub open spec fn fields_tree(fields: FieldModel) -> JsonModel {
    JsonModel::Object(Seq::new(fields.len(), |i: int| (fields[i].0, JsonModel::Text(fields[i].1))))
}

/// The array that holds each value of a list as a text.
pub open spec fn array_tree(items: Seq<Text>) -> JsonModel {
    JsonModel::Array(Seq::new(items.len(), |i: int| JsonModel::Text(items[i])))
}

/// The object that holds each list as an array under its key.
pub open spec fn lists_tree(lists: ListModel) -> JsonModel {
    JsonModel::Object(Seq::new(lists.len(), |i: int| (lists[i].0, array_tree(lists[i].1))))
}

/// The object that holds each hash as an object under its key.
pub open spec fn hashes_tree(hashes: HashModel) -> JsonModel {
    JsonModel::Object(Seq::new(hashes.len(), |i: int| (hashes[i].0, fields_tree(hashes[i].1))))
}

/// Builds the object of the string keyspace, or of the fields of one hash.
pub fn write_fields(fields: &Table<RedisValue>) -> (tree: Json)
    requires
        fields.wf(),
    ensures
        tree.deep_view() == fields_tree(fields.deep_view()),
{
    let mut members: Vec<(String, Json)> = Vec::new();
    let mut i: usize = 0;
    while i < fields.keys.len()
        invariant
            i <= fields.keys.len(),
            fields.wf(),
            members.len() == i,
            forall|j: int|
                0 <= j < i ==> (#[trigger] members[j]).0@ == fields.keys[j]@
                    && members[j].1.deep_view() == JsonModel::Text(fields.vals[j]@),
        decreases fields.keys.len() - i,
    {
        members.push((fields.keys[i].clone(), Json::Text(fields.vals[i].to_string())));
        i += 1;
    }
    proof {
        lemma_object_view(members);
        assert(members_view(members) =~= fields_tree(fields.deep_view())->Object_0);
    }
    Json::Object(members)
}

/// Builds the array of one list.
pub fn write_array(items: &Vec<RedisValue>) -> (tree: Json)
    ensures
        tree.deep_view() == array_tree(items.deep_view()),
{
    let mut out: Vec<Json> = Vec::new();
    let mut i: usize = 0;
    while i < items.len()
        invariant
            i <= items.len(),
            out.len() == i,
            forall|j: int|
                0 <= j < i ==> (#[trigger] out[j]).deep_view() == JsonModel::Text(items[j]@),
        decreases items.len() - i,
    {
        out.push(Json::Text(items[i].to_string()));
        i += 1;
    }
    proof {
        lemma_array_view(out);
        assert(items_view(out) =~= array_tree(items.deep_view())->Array_0);
    }
    Json::Array(out)
}

/// Builds the object of the list keyspace.
pub fn write_lists(lists: &List) -> (tree: Json)
    requires
        lists.wf(),
    ensures
        tree.deep_view() == lists_tree(lists.deep_view()),
{
    let mut members: Vec<(String, Json)> = Vec::new();
    let mut i: usize = 0;
    while i < lists.keys.len()
        invariant
            i <= lists.keys.len(),
            lists.wf(),
            members.len() == i,
            forall|j: int|
                0 <= j < i ==> (#[trigger] members[j]).0@ == lists.keys[j]@
                    && members[j].1.deep_view() == array_tree(lists.vals[j].deep_view()),
        decreases lists.keys.len() - i,
    {
        members.push((lists.keys[i].clone(), write_array(&lists.vals[i])));
        i += 1;
    }
    proof {
        lemma_object_view(members);
        assert(members_view(members) =~= lists_tree(lists.deep_view())->Object_0);
    }
    Json::Object(members)
}

/// Builds the object of the hash keyspace.
pub fn write_hashes(hashes: &Hashes) -> (tree: Json)
    requires
        hash_wf(hashes),
    ensures
        tree.deep_view() == hashes_tree(hashes.deep_view()),
{
    let mut members: Vec<(String, Json)> = Vec::new();
    let mut i: usize = 0;
    while i < hashes.keys.len()
        invariant
            i <= hashes.keys.len(),
            hash_wf(hashes),
            members.len() == i,
            forall|j: int|
                0 <= j < i ==> (#[trigger] members[j]).0@ == hashes.keys[j]@
                    && members[j].1.deep_view() == fields_tree(hashes.vals[j].deep_view()),
        decreases hashes.keys.len() - i,
    {
        members.push((hashes.keys[i].clone(), write_fields(&hashes.vals[i])));
        i += 1;
    }
    proof {
        lemma_object_view(members);
        assert(members_view(members) =~= hashes_tree(hashes.deep_view())->Object_0);
    }
    Json::Object(members)
}

/// Why a snapshot could not be read or written.
#[derive(Clone, Copy, Debug, PartialEq, Eq)]
pub enum SnapshotError {
    /// The text is no JSON document, or the document does not have the shape
    /// of a snapshot.
    Malformed,
    /// The snapshot text that was written does not read back as a JSON
    /// document.
    Corrupted,
}

impl SnapshotError {
    /// The message of the error.
    pub fn message(&self) -> (msg: String)
        ensures
            msg@ == match *self {
                SnapshotError::Malformed => "[ERROR]: Cannot read dump file!"@,
                SnapshotError::Corrupted => "Data has been corrupted. Cannot save."@,
            },
    {
        match self {
            SnapshotError::Malformed => "[ERROR]: Cannot read dump file!".to_owned(),
            SnapshotError::Corrupted => "Data has been corrupted. Cannot save.".to_owned(),
        }
    }
}

/// The keyspaces that a snapshot text stands for, where it stands for any.
pub open spec fn load_spec(text: Text) -> Option<StoreModel> {
    match json_parse(text) {
        Some(doc) => decode_document(doc),
        None => None,
    }
}

/// The indented text of a tree, where one can be written.
pub open spec fn pretty_of(tree: JsonModel) -> Option<Text> {
    json_pretty(json_stored(tree))
}

/// The text of a string that may be missing.
pub open spec fn text_view(text: Option<String>) -> Option<Text> {
    match text {
        Some(s) => Some(s@),
        None => None,
    }
}

/// One section of the snapshot text: its text between what stands before
/// and after it, or nothing where it has no text.
pub open spec fn framed_section(before: Text, section: Option<Text>, after: Text) -> Text {
    match section {
        Some(s) => before + s + after,
        None => Seq::empty(),
    }
}

/// The snapshot text around the texts of its three sections: an object with
/// the members `key_value_pairs`, `lists` and `hashes`.
pub open spec fn framed_snapshot(
    strings: Option<Text>,
    lists: Option<Text>,
    hashes: Option<Text>,
) -> Text {
    "{\n\t\"key_value_pairs\": "@ + framed_section(Seq::empty(), strings, ",\n"@)
        + framed_section("\"lists\": "@, lists, ",\n"@) + framed_section(
        "\t\"hashes\": "@,
        hashes,
        "\n"@,
    ) + "\n}"@
}

/// The snapshot text of the keyspaces.
pub open spec fn snapshot_text(store: StoreModel) -> Text {
    framed_snapshot(
        pretty_of(fields_tree(store.strings)),
        pretty_of(lists_tree(store.lists)),
        pretty_of(hashes_tree(store.hashes)),
    )
}

/// What saving yields: the snapshot text where it reads back as a JSON
/// document, and an error where it does not.
pub open spec fn save_spec(store: StoreModel) -> Result<Text, SnapshotError> {
    if json_parse(snapshot_text(store)) is Some {
        Ok(snapshot_text(store))
    } else {
        Err(SnapshotError::Corrupted)
    }
}

/// Appends one section to the snapshot text.
fn push_section(text: &mut String, before: &str, section: &Option<String>, after: &str)
    ensures
        final(text)@ == old(text)@ + framed_section(before@, text_view(*section), after@),
{
    match section {
        Some(s) => {
            text.append(before);
            text.append(s.as_str());
            text.append(after);
            assert(text@ =~= old(text)@ + (before@ + s@ + after@));
        },
        None => {
            assert(text@ =~= old(text)@ + Seq::<char>::empty());
        },
    }
}

/// Puts the snapshot text together from the texts of its three sections. A
/// section without a text is left out.
pub fn frame_snapshot(
    strings: &Option<String>,
    lists: &Option<String>,
    hashes: &Option<String>,
) -> (text: String)
    ensures
        text@ == framed_snapshot(text_view(*strings), text_view(*lists), text_view(*hashes)),
{
    proof {
        reveal_strlit("");
        assert(""@ =~= Seq::<char>::empty());
    }
    let mut text = "{\n\t\"key_value_pairs\": ".to_owned();
    push_section(&mut text, "", strings, ",\n");
    push_section(&mut text, "\"lists\": ", lists, ",\n");
    push_section(&mut text, "\t\"hashes\": ", hashes, "\n");
    text.append("\n}");
    text
}

/// Reads the three keyspaces from a snapshot document.
pub fn read_document(doc: &Json) -> (out: Option<(KeyValuePairs, List, Hashes)>)
    ensures
        match out {
            Some((strings, lists, hashes)) => {
                &&& strings.wf()
                &&& lists.wf()
                &&& hash_wf(&hashes)
                &&& decode_document(doc.deep_view()) == Some(
                    StoreModel {
                        strings: strings.deep_view(),
                        lists: lists.deep_view(),
                        hashes: hashes.deep_view(),
                    },
                )
            },
            None => decode_document(doc.deep_view()) is None,
        },
{
    let strings = find_member(doc, "key_value_pairs");
    let lists = find_member(doc, "lists");
    let hashes = find_member(doc, "hashes");
    match (strings, lists, hashes) {
        (Some(strings), Some(lists), Some(hashes)) => {
            match (read_fields(strings), read_lists(lists), read_hashes(hashes)) {
                (Some(strings), Some(lists), Some(hashes)) => Some((strings, lists, hashes)),
                _ => None,
            }
        },
        _ => None,
    }
}

} // verus!
