//! JSON records: writing one as a line, and reading the members of one.
use serde_json::Value;
use vstd::prelude::*;
use vstd::string::*;

use crate::text::same;

verus! {

/// The value of a member of a record that is written.
pub enum JsonField<S = String> {
    Text(S),
    Count(u64),
}

impl View for JsonField<String> {
    type V = JsonField<Seq<char>>;

    open spec fn view(&self) -> JsonField<Seq<char>> {
        match self {
            JsonField::Text(t) => JsonField::Text(t@),
            JsonField::Count(n) => JsonField::Count(*n),
        }
    }
}

/// The value of a member of a record that is read.
pub enum JsonMember<S = String> {
    Null,
    Bool(bool),
    /// A number; its value where that is a natural number of 64 bits.
    Number(Option<u64>),
    Text(S),
    /// A list, as JSON text.
    Array(S),
    /// A record in the record, as JSON text.
    Object(S),
}

impl View for JsonMember<String> {
    type V = JsonMember<Seq<char>>;

    open spec fn view(&self) -> JsonMember<Seq<char>> {
        match self {
            JsonMember::Null => JsonMember::Null,
            JsonMember::Bool(b) => JsonMember::Bool(*b),
            JsonMember::Number(n) => JsonMember::Number(*n),
            JsonMember::Text(t) => JsonMember::Text(t@),
            JsonMember::Array(t) => JsonMember::Array(t@),
            JsonMember::Object(t) => JsonMember::Object(t@),
        }
    }
}

/// The members of a record that is written, as mathematical values.
pub open spec fn fields_of(fields: Seq<(String, JsonField)>) -> Seq<
    (Seq<char>, JsonField<Seq<char>>),
> {
    fields.map_values(|f: (String, JsonField)| (f.0@, f.1@))
}

/// The members of a record that is read, as mathematical values.
pub open spec fn members_of(members: Seq<(String, JsonMember)>) -> Seq<
    (Seq<char>, JsonMember<Seq<char>>),
> {
    members.map_values(|m: (String, JsonMember)| (m.0@, m.1@))
}

/// The compact JSON text that `serde_json::to_string` gives for an object with
/// these members, of which a later one replaces an earlier one of its name.
pub uninterp spec fn json_object_text(fields: Seq<(Seq<char>, JsonField<Seq<char>>)>) -> Seq<char>;

/// The members of the object that `serde_json::from_str` reads from a text, in
/// the order in which its map hands them out; nothing where the text is JSON
/// but no object; the parser's message where it is not JSON.
pub uninterp spec fn json_text_members(text: Seq<char>) -> Result<
    Option<Seq<(Seq<char>, JsonMember<Seq<char>>)>>,
    Seq<char>,
>;

/// The value under a name in a record that is written, as it reads. Of members
/// of one name the last counts.
pub open spec fn written(
    fields: Seq<(Seq<char>, JsonField<Seq<char>>)>,
    name: Seq<char>,
) -> Option<JsonMember<Seq<char>>>
    decreases fields.len(),
{
    if fields.len() == 0 {
        None
    } else if fields.last().0 == name {
        Some(
            match fields.last().1 {
                JsonField::Text(t) => JsonMember::Text(t),
                JsonField::Count(n) => JsonMember::Number(Some(n)),
            },
        )
    } else {
        written(fields.drop_last(), name)
    }
}

/// Whether a text reads as the record with these members, and no others.
pub open spec fn reads_as(text: Seq<char>, fields: Seq<(Seq<char>, JsonField<Seq<char>>)>) -> bool {
    match json_text_members(text) {
        Ok(Some(members)) => forall|name: Seq<char>| #[trigger]
            lookup(members, name) == written(fields, name),
        _ => false,
    }
}

/// Calls `serde_json::to_string` on an object with string and integer members.
/// Claimed: it succeeds, gives the same text for the same members, puts it on
/// one line, since it writes a line break in a string as an escape, and
/// `serde_json::from_str` reads the members back from it.
#[verifier::external_body]
pub(crate) fn json_object(fields: &Vec<(String, JsonField)>) -> (r: Option<String>)
    ensures
        r is Some,
        r->Some_0@ == json_object_text(fields_of(fields@)),
        !r->Some_0@.contains('\n'),
        reads_as(r->Some_0@, fields_of(fields@)),
{
    let mut object = serde_json::Map::new();
    for (name, field) in fields.iter() {
        let value = match field {
            JsonField::Text(t) => Value::String(t.clone()),
            JsonField::Count(n) => Value::from(*n),
        };
        object.insert(name.clone(), value);
    }
    serde_json::to_string(&object).ok()
}

/// Calls `serde_json::from_str` and hands out the members of an object.
/// Claimed: the same text gives the same members, or the same message.
#[verifier::external_body]
pub(crate) fn json_members(text: &str) -> (r: Result<Option<Vec<(String, JsonMember)>>, String>)
    ensures
        match r {
            Ok(Some(m)) => json_text_members(text@) == Ok::<
                Option<Seq<(Seq<char>, JsonMember<Seq<char>>)>>,
                Seq<char>,
            >(Some(members_of(m@))),
            Ok(None) => json_text_members(text@) == Ok::<
                Option<Seq<(Seq<char>, JsonMember<Seq<char>>)>>,
                Seq<char>,
            >(None),
            Err(e) => json_text_members(text@) == Err::<
                Option<Seq<(Seq<char>, JsonMember<Seq<char>>)>>,
                Seq<char>,
            >(e@),
        },
{
    let convert = |v: Value| match v {
        Value::Null => JsonMember::Null,
        Value::Bool(b) => JsonMember::Bool(b),
        Value::Number(n) => JsonMember::Number(n.as_u64()),
        Value::String(s) => JsonMember::Text(s),
        Value::Array(a) => JsonMember::Array(Value::Array(a).to_string()),
        Value::Object(o) => JsonMember::Object(Value::Object(o).to_string()),
    };
    match serde_json::from_str(text) {
        Ok(Value::Object(m)) => Ok(Some(m.into_iter().map(|(k, v)| (k, convert(v))).collect())),
        Ok(_) => Ok(None),
        Err(e) => Err(e.to_string()),
    }
}

/// The value of the first member of a name.
pub open spec fn lookup(
    members: Seq<(Seq<char>, JsonMember<Seq<char>>)>,
    name: Seq<char>,
) -> Option<JsonMember<Seq<char>>>
    decreases members.len(),
{
    if members.len() == 0 {
        None
    } else if members[0].0 == name {
        Some(members[0].1)
    } else {
        lookup(members.drop_first(), name)
    }
}

/// Finds a member by its name.
pub fn find_member(members: &Vec<(String, JsonMember)>, name: &str) -> (r: Option<usize>)
    ensures
        match r {
            Some(i) => i < members.len() && lookup(members_of(members@), name@) == Some(
                members@[i as int].1@,
            ),
            None => lookup(members_of(members@), name@) is None,
        },
{
    let ghost all = members_of(members@);
    proof {
        assert(all.skip(0) =~= all);
    }
    let mut i: usize = 0;
    while i < members.len()
        invariant
            i <= members.len(),
            all == members_of(members@),
            lookup(all, name@) == lookup(all.skip(i as int), name@),
        decreases members.len() - i,
    {
        let ghost rest = all.skip(i as int);
        proof {
            assert(rest[0] == all[i as int]);
            assert(rest.drop_first() =~= all.skip(i + 1));
        }
        if same(members[i].0.as_str(), name) {
            return Some(i);
        }
        i = i + 1;
    }
    proof {
        assert(all.skip(i as int).len() == 0);
    }
    None
}

/// The natural number under a name, where there is one.
pub open spec fn count_member(
    members: Seq<(Seq<char>, JsonMember<Seq<char>>)>,
    name: Seq<char>,
) -> Option<u64> {
    match lookup(members, name) {
        Some(JsonMember::Number(n)) => n,
        _ => None,
    }
}

/// The text under a name, where there is one.
pub open spec fn text_member(
    members: Seq<(Seq<char>, JsonMember<Seq<char>>)>,
    name: Seq<char>,
) -> Option<Seq<char>> {
    match lookup(members, name) {
        Some(JsonMember::Text(t)) => Some(t),
        _ => None,
    }
}

/// Looks up a natural number.
pub fn get_count(members: &Vec<(String, JsonMember)>, name: &str) -> (r: Option<u64>)
    ensures
        r == count_member(members_of(members@), name@),
{
    match find_member(members, name) {
        Some(i) => match &members[i].1 {
            JsonMember::Number(n) => *n,
            _ => None,
        },
        None => None,
    }
}

/// Looks up a text.
pub fn get_text(members: &Vec<(String, JsonMember)>, name: &str) -> (r: Option<String>)
    ensures
        match r {
            Some(t) => text_member(members_of(members@), name@) == Some(t@),
            None => text_member(members_of(members@), name@) is None,
        },
{
    match find_member(members, name) {
        Some(i) => match &members[i].1 {
            JsonMember::Text(t) => Some(t.clone()),
            _ => None,
        },
        None => None,
    }
}

/// A name leads to the member that is the first to carry it, and to nothing
/// where no member does.
pub proof fn members_are_found_by_name(
    members: Seq<(Seq<char>, JsonMember<Seq<char>>)>,
    name: Seq<char>,
    i: int,
)
    requires
        0 <= i <= members.len(),
        forall|j: int| 0 <= j < i ==> (#[trigger] members[j]).0 != name,
    ensures
        i < members.len() && members[i].0 == name ==> lookup(members, name) == Some(members[i].1),
        i == members.len() ==> lookup(members, name) is None,
    decreases i,
{
    if i > 0 {
        assert(members[0].0 != name);
        let rest = members.drop_first();
        assert forall|j: int| 0 <= j < i - 1 implies (#[trigger] rest[j]).0 != name by {
            assert(rest[j] == members[j + 1]);
        }
        members_are_found_by_name(rest, name, i - 1);
        if i < members.len() {
            assert(rest[i - 1] == members[i]);
        }
    }
}

/// A number is read from a number and a text from a text, and neither from
/// anything else.
pub proof fn members_are_of_their_kind(
    members: Seq<(Seq<char>, JsonMember<Seq<char>>)>,
    name: Seq<char>,
    t: Seq<char>,
    n: u64,
)
    ensures
        text_member(members, name) == Some(t) <==> lookup(members, name) == Some(
            JsonMember::Text(t),
        ),
        count_member(members, name) == Some(n) <==> lookup(members, name) == Some(
            JsonMember::<Seq<char>>::Number(Some(n)),
        ),
{
}

/// What is written last under a name is what counts, whatever else is written
/// under other names.
pub proof fn last_written_counts(
    fields: Seq<(Seq<char>, JsonField<Seq<char>>)>,
    name: Seq<char>,
    i: int,
)
    requires
        0 <= i < fields.len(),
        fields[i].0 == name,
        forall|j: int| i < j < fields.len() ==> (#[trigger] fields[j]).0 != name,
    ensures
        fields[i].1 matches JsonField::Text(t) ==> written(fields, name) == Some(
            JsonMember::Text(t),
        ),
        fields[i].1 matches JsonField::Count(n) ==> written(fields, name) == Some(
            JsonMember::<Seq<char>>::Number(Some(n)),
        ),
    decreases fields.len(),
{
    if i < fields.len() - 1 {
        assert(fields[fields.len() - 1].0 != name);
        let front = fields.drop_last();
        assert forall|j: int| i < j < front.len() implies (#[trigger] front[j]).0 != name by {
            assert(front[j] == fields[j]);
        }
        assert(front[i] == fields[i]);
        last_written_counts(front, name, i);
    }
}

/// What is not written does not read as anything.
pub proof fn unwritten_names_are_missing(
    fields: Seq<(Seq<char>, JsonField<Seq<char>>)>,
    name: Seq<char>,
)
    requires
        forall|j: int| 0 <= j < fields.len() ==> (#[trigger] fields[j]).0 != name,
    ensures
        written(fields, name) is None,
    decreases fields.len(),
{
    if fields.len() > 0 {
        assert(fields[fields.len() - 1].0 != name);
        let front = fields.drop_last();
        assert forall|j: int| 0 <= j < front.len() implies (#[trigger] front[j]).0 != name by {
            assert(front[j] == fields[j]);
        }
        unwritten_names_are_missing(front, name);
    }
}

/// A text that reads as a record gives back, under the name of each of its
/// members, the text or the number that was written there.
pub proof fn written_record_gives_its_members(
    text: Seq<char>,
    fields: Seq<(Seq<char>, JsonField<Seq<char>>)>,
    i: int,
)
    requires
        reads_as(text, fields),
        0 <= i < fields.len(),
        forall|j: int| i < j < fields.len() ==> (#[trigger] fields[j]).0 != fields[i].0,
    ensures
        json_text_members(text) matches Ok(Some(members)) && match fields[i].1 {
            JsonField::Text(t) => text_member(members, fields[i].0) == Some(t),
            JsonField::Count(n) => count_member(members, fields[i].0) == Some(n),
        },
{
    last_written_counts(fields, fields[i].0, i);
    let members = json_text_members(text)->Ok_0->Some_0;
    assert(lookup(members, fields[i].0) == written(fields, fields[i].0));
}

} // verus!
