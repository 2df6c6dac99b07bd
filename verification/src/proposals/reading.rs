//! How change sets are read, and which are refused.
use vstd::prelude::*;

use crate::items::model::{NewItem, ReplaceItem};
use crate::json::{first_member, Json, JsonNumber};
use crate::proposals::application::{
    command_of, content_of, part, payload_commands, payload_reads, payload_values,
    refused_with, well_formed, ProposalChangeSetError, ProposalCommand, ProposalOperation,
    ReadItem,
};
use crate::time::Uuid;

verus! {

/// Whether a value is an object of these members, in this order.
pub open spec fn object_of(value: Json, keys: Seq<Seq<char>>, values: Seq<Json>) -> bool {
    &&& value is Object
    &&& value->Object_0@.len() == keys.len()
    &&& keys.len() == values.len()
    &&& forall|i: int|
        0 <= i < keys.len() ==> (#[trigger] value->Object_0@[i]).0@ == keys[i]
            && value->Object_0@[i].1 == values[i]
}

/// Whether a value is an array of these values.
pub open spec fn array_of(value: Json, values: Seq<Json>) -> bool {
    value is Array && value->Array_0@ == values
}

/// Whether a value is a text that stands for this identifier.
pub open spec fn writes_id(value: Json, id: Uuid) -> bool {
    value is Text && crate::outside::uuid_of_text(value->Text_0@) == Some(id)
}

/// Whether a value is this text.
pub open spec fn writes_text(value: Json, text: Seq<char>) -> bool {
    value is Text && value->Text_0@ == text
}

/// Whether a value is this number.
pub open spec fn writes_number(value: Json, number: u64) -> bool {
    value == Json::Number(JsonNumber::Unsigned(number))
}

proof fn lemma_keys()
    ensures
        "operation"@.len() == 9,
        "command_id"@.len() == 10,
        "item_id"@.len() == 7,
        "expected_revision"@.len() == 17,
        "item"@.len() == 4,
        "schema"@.len() == 6,
        "commands"@.len() == 8,
        "create_item"@.len() == 11,
        "replace_item"@.len() == 12,
        "trash_item"@.len() == 10,
        "restore_item"@.len() == 12,
        "replace_item"@ != "restore_item"@,
        "dayweave.proposal-change-set/1"@.len() == 30,
{
    reveal_strlit("operation");
    reveal_strlit("command_id");
    reveal_strlit("item_id");
    reveal_strlit("expected_revision");
    reveal_strlit("item");
    reveal_strlit("schema");
    reveal_strlit("commands");
    reveal_strlit("create_item");
    reveal_strlit("replace_item");
    reveal_strlit("trash_item");
    reveal_strlit("restore_item");
    reveal_strlit("dayweave.proposal-change-set/1");
    assert("replace_item"@[2] != "restore_item"@[2]);
}

proof fn lemma_member(members: Seq<(String, Json)>, key: Seq<char>, i: int)
    requires
        0 <= i < members.len(),
        members[i].0@ == key,
        forall|j: int| 0 <= j < i ==> (#[trigger] members[j]).0@ != key,
    ensures
        first_member(members, key) == Some(members[i].1),
    decreases i,
{
    if i > 0 {
        assert(members[0].0@ != key);
        let rest = members.skip(1);
        assert forall|j: int| 0 <= j < i - 1 implies (#[trigger] rest[j]).0@ != key by {
            assert(rest[j] == members[j + 1]);
        }
        lemma_member(rest, key, i - 1);
    }
}

proof fn lemma_four(value: Json, values: Seq<Json>)
    requires
        object_of(
            value,
            seq!["operation"@, "command_id"@, "item_id"@, "expected_revision"@],
            values,
        ),
    ensures
        part(value, 0, "operation"@) == Some(values[0]),
        part(value, 1, "command_id"@) == Some(values[1]),
        part(value, 2, "item_id"@) == Some(values[2]),
        part(value, 3, "expected_revision"@) == Some(values[3]),
        crate::proposals::application::only_parts(
            value,
            crate::proposals::application::target_keys(),
        ),
{
    lemma_keys();
    let members = value->Object_0@;
    assert(members[0].0@ == "operation"@);
    assert(members[1].0@ == "command_id"@);
    assert(members[2].0@ == "item_id"@);
    assert(members[3].0@ == "expected_revision"@);
    lemma_member(members, "operation"@, 0);
    lemma_member(members, "command_id"@, 1);
    lemma_member(members, "item_id"@, 2);
    lemma_member(members, "expected_revision"@, 3);
    let keys = crate::proposals::application::target_keys();
    assert(keys[0] == "operation"@ && keys[1] == "command_id"@ && keys[2] == "item_id"@ && keys[3]
        == "expected_revision"@);
}

proof fn lemma_five(value: Json, values: Seq<Json>)
    requires
        object_of(
            value,
            seq!["operation"@, "command_id"@, "item_id"@, "expected_revision"@, "item"@],
            values,
        ),
    ensures
        part(value, 0, "operation"@) == Some(values[0]),
        part(value, 1, "command_id"@) == Some(values[1]),
        part(value, 2, "item_id"@) == Some(values[2]),
        part(value, 3, "expected_revision"@) == Some(values[3]),
        part(value, 4, "item"@) == Some(values[4]),
        crate::proposals::application::only_parts(
            value,
            crate::proposals::application::replacement_keys(),
        ),
{
    lemma_keys();
    let members = value->Object_0@;
    assert(members[0].0@ == "operation"@);
    assert(members[1].0@ == "command_id"@);
    assert(members[2].0@ == "item_id"@);
    assert(members[3].0@ == "expected_revision"@);
    assert(members[4].0@ == "item"@);
    lemma_member(members, "operation"@, 0);
    lemma_member(members, "command_id"@, 1);
    lemma_member(members, "item_id"@, 2);
    lemma_member(members, "expected_revision"@, 3);
    lemma_member(members, "item"@, 4);
    let keys = crate::proposals::application::replacement_keys();
    assert(keys[0] == "operation"@ && keys[1] == "command_id"@ && keys[2] == "item_id"@ && keys[3]
        == "expected_revision"@ && keys[4] == "item"@);
}

proof fn lemma_three(value: Json, values: Seq<Json>)
    requires
        object_of(value, seq!["operation"@, "command_id"@, "item"@], values),
    ensures
        part(value, 0, "operation"@) == Some(values[0]),
        part(value, 1, "command_id"@) == Some(values[1]),
        part(value, 2, "item"@) == Some(values[2]),
        crate::proposals::application::only_parts(
            value,
            crate::proposals::application::creation_keys(),
        ),
{
    lemma_keys();
    let members = value->Object_0@;
    assert(members[0].0@ == "operation"@);
    assert(members[1].0@ == "command_id"@);
    assert(members[2].0@ == "item"@);
    lemma_member(members, "operation"@, 0);
    lemma_member(members, "command_id"@, 1);
    lemma_member(members, "item"@, 2);
    let keys = crate::proposals::application::creation_keys();
    assert(keys[0] == "operation"@ && keys[1] == "command_id"@ && keys[2] == "item"@);
}

/// A command to trash or to restore an item that is written down, as an object or as an array,
/// is read as what was written: the same command, of the same item, for the same revision.
pub proof fn written_trash_and_restore_are_read_back(
    value: Json,
    values: Seq<Json>,
    command_id: Uuid,
    item_id: Uuid,
    revision: u64,
    item: ReadItem,
)
    requires
        values.len() == 4,
        object_of(
            value,
            seq!["operation"@, "command_id"@, "item_id"@, "expected_revision"@],
            values,
        ) || array_of(value, values),
        writes_id(values[1], command_id),
        writes_id(values[2], item_id),
        writes_number(values[3], revision),
    ensures
        writes_text(values[0], "trash_item"@) ==> command_of(value, item) == Some(
            ProposalCommand::TrashItem { command_id, item_id, expected_revision: revision },
        ),
        writes_text(values[0], "restore_item"@) ==> command_of(value, item) == Some(
            ProposalCommand::RestoreItem { command_id, item_id, expected_revision: revision },
        ),
{
    lemma_keys();
    if value is Object {
        lemma_four(value, values);
    } else {
        assert(part(value, 0, "operation"@) == Some(values[0]));
    }
}

/// A command to replace an item that is written down, as an object or as an array, is read as
/// what was written, with the content that could be read.
pub proof fn written_replacements_are_read_back(
    value: Json,
    values: Seq<Json>,
    command_id: Uuid,
    item_id: Uuid,
    revision: u64,
    item: ReplaceItem,
)
    requires
        values.len() == 5,
        object_of(
            value,
            seq!["operation"@, "command_id"@, "item_id"@, "expected_revision"@, "item"@],
            values,
        ) || array_of(value, values),
        writes_text(values[0], "replace_item"@),
        writes_id(values[1], command_id),
        writes_id(values[2], item_id),
        writes_number(values[3], revision),
    ensures
        content_of(value) == Some(values[4]),
        command_of(value, ReadItem::Replacement(item)) == Some(
            ProposalCommand::ReplaceItem { command_id, item_id, expected_revision: revision, item },
        ),
{
    lemma_keys();
    if value is Object {
        lemma_five(value, values);
    } else {
        assert(part(value, 0, "operation"@) == Some(values[0]));
    }
}

/// A command to create an item that is written down, as an object or as an array, is read as
/// what was written, with the content that could be read.
pub proof fn written_creations_are_read_back(
    value: Json,
    values: Seq<Json>,
    command_id: Uuid,
    item: NewItem,
)
    requires
        values.len() == 3,
        object_of(value, seq!["operation"@, "command_id"@, "item"@], values) || array_of(
            value,
            values,
        ),
        writes_text(values[0], "create_item"@),
        writes_id(values[1], command_id),
    ensures
        content_of(value) == Some(values[2]),
        command_of(value, ReadItem::New(item)) == Some(
            ProposalCommand::CreateItem { command_id, item },
        ),
{
    lemma_keys();
    if value is Object {
        lemma_three(value, values);
    } else {
        assert(part(value, 0, "operation"@) == Some(values[0]));
    }
}

/// What was read as a command says what the command says: the parts that belong to the
/// command stand in it, and nothing else does.
pub proof fn read_commands_say_what_was_written(
    value: Json,
    item: ReadItem,
    command: ProposalCommand,
)
    requires
        command_of(value, item) == Some(command),
    ensures
        value is Object || value is Array,
        match command {
            ProposalCommand::CreateItem { command_id, item: content } => {
                &&& item == ReadItem::New(content)
                &&& part(value, 0, "operation"@) is Some && writes_text(
                    part(value, 0, "operation"@)->0,
                    "create_item"@,
                )
                &&& part(value, 1, "command_id"@) is Some && writes_id(
                    part(value, 1, "command_id"@)->0,
                    command_id,
                )
                &&& part(value, 2, "item"@) is Some
            },
            ProposalCommand::ReplaceItem {
                command_id,
                item_id,
                expected_revision,
                item: content,
            } => {
                &&& item == ReadItem::Replacement(content)
                &&& part(value, 0, "operation"@) is Some && writes_text(
                    part(value, 0, "operation"@)->0,
                    "replace_item"@,
                )
                &&& part(value, 1, "command_id"@) is Some && writes_id(
                    part(value, 1, "command_id"@)->0,
                    command_id,
                )
                &&& part(value, 2, "item_id"@) is Some && writes_id(
                    part(value, 2, "item_id"@)->0,
                    item_id,
                )
                &&& part(value, 3, "expected_revision"@) == Some(
                    Json::Number(JsonNumber::Unsigned(expected_revision)),
                )
                &&& part(value, 4, "item"@) is Some
            },
            ProposalCommand::TrashItem { command_id, item_id, expected_revision } => {
                &&& part(value, 0, "operation"@) is Some && writes_text(
                    part(value, 0, "operation"@)->0,
                    "trash_item"@,
                )
                &&& part(value, 1, "command_id"@) is Some && writes_id(
                    part(value, 1, "command_id"@)->0,
                    command_id,
                )
                &&& part(value, 2, "item_id"@) is Some && writes_id(
                    part(value, 2, "item_id"@)->0,
                    item_id,
                )
                &&& part(value, 3, "expected_revision"@) == Some(
                    Json::Number(JsonNumber::Unsigned(expected_revision)),
                )
            },
            ProposalCommand::RestoreItem { command_id, item_id, expected_revision } => {
                &&& part(value, 0, "operation"@) is Some && writes_text(
                    part(value, 0, "operation"@)->0,
                    "restore_item"@,
                )
                &&& part(value, 1, "command_id"@) is Some && writes_id(
                    part(value, 1, "command_id"@)->0,
                    command_id,
                )
                &&& part(value, 2, "item_id"@) is Some && writes_id(
                    part(value, 2, "item_id"@)->0,
                    item_id,
                )
                &&& part(value, 3, "expected_revision"@) == Some(
                    Json::Number(JsonNumber::Unsigned(expected_revision)),
                )
            },
        },
{
    lemma_keys();
}

/// A part of an object is the member under its key, and a part of an array the value at its
/// place. Nothing else has parts.
pub proof fn parts_are_members_or_places(value: Json, place: int, key: Seq<char>, found: Json)
    requires
        part(value, place, key) == Some(found),
    ensures
        value is Object || value is Array,
        value is Object ==> exists|i: int|
            0 <= i < value->Object_0@.len() && (#[trigger] value->Object_0@[i]).0@ == key
                && value->Object_0@[i].1 == found && forall|j: int|
                0 <= j < i ==> (#[trigger] value->Object_0@[j]).0@ != key,
        value is Array ==> 0 <= place < value->Array_0@.len() && value->Array_0@[place] == found,
{
    if value is Object {
        lemma_found(value->Object_0@, key, found);
    }
}

proof fn lemma_found(members: Seq<(String, Json)>, key: Seq<char>, found: Json)
    requires
        first_member(members, key) == Some(found),
    ensures
        exists|i: int|
            0 <= i < members.len() && (#[trigger] members[i]).0@ == key && members[i].1 == found
                && forall|j: int| 0 <= j < i ==> (#[trigger] members[j]).0@ != key,
    decreases members.len(),
{
    if members[0].0@ == key {
        assert(members[0].1 == found);
    } else {
        let rest = members.skip(1);
        lemma_found(rest, key, found);
        let i = choose|i: int|
            0 <= i < rest.len() && (#[trigger] rest[i]).0@ == key && rest[i].1 == found && forall|
                j: int,
            |
                0 <= j < i ==> (#[trigger] rest[j]).0@ != key;
        assert(members[i + 1] == rest[i]);
        assert forall|j: int| 0 <= j < i + 1 implies (#[trigger] members[j]).0@ != key by {
            if j > 0 {
                assert(rest[j - 1] == members[j]);
            }
        }
    }
}

/// A member that belongs to no command is not passed over: an object that holds one stands for
/// no command, and neither does an array that is too long or too short.
pub proof fn foreign_members_are_refused(value: Json, item: ReadItem, i: int)
    requires
        match value {
            Json::Object(members) => 0 <= i < members@.len() && members@[i].0@ != "operation"@
                && members@[i].0@ != "command_id"@ && members@[i].0@ != "item_id"@
                && members@[i].0@ != "expected_revision"@ && members@[i].0@ != "item"@,
            Json::Array(values) => values@.len() < 3 || values@.len() > 5,
            _ => true,
        },
    ensures
        command_of(value, item) is None,
{
    let creation = crate::proposals::application::creation_keys();
    let target = crate::proposals::application::target_keys();
    let replacement = crate::proposals::application::replacement_keys();
    match value {
        Json::Object(members) => {
            let key = members@[i].0@;
            assert(!creation.contains(key));
            assert(!target.contains(key));
            assert(!replacement.contains(key)) by {
                if replacement.contains(key) {
                    let n = choose|n: int| 0 <= n < replacement.len() && replacement[n] == key;
                    assert(n == 4 || target[n] == key);
                }
            }
        },
        Json::Array(values) => {
            assert(creation.len() == 3 && target.len() == 4 && replacement.len() == 5);
        },
        _ => {},
    }
}

/// A payload whose parts are its schema and its commands, as an object or as an array, holds
/// the commands that stand in it, in their order.
pub proof fn written_change_sets_are_read_back(
    payload: Json,
    parts: Seq<Json>,
    items: Seq<ReadItem>,
    k: int,
)
    requires
        parts.len() == 2,
        object_of(payload, seq!["schema"@, "commands"@], parts) || array_of(payload, parts),
        writes_text(parts[0], "dayweave.proposal-change-set/1"@),
        parts[1] is Array,
        items.len() == parts[1]->Array_0@.len(),
        0 <= k < items.len(),
    ensures
        payload_values(payload) == Some(parts[1]->Array_0@),
        payload_reads(payload, items) ==> payload_commands(payload, items).len() == items.len()
            && command_of(parts[1]->Array_0@[k], items[k]) == Some(
            payload_commands(payload, items)[k],
        ),
{
    lemma_keys();
    if payload is Object {
        let members = payload->Object_0@;
        assert(members[0].0@ == "schema"@);
        assert(members[1].0@ == "commands"@);
        lemma_member(members, "schema"@, 0);
        lemma_member(members, "commands"@, 1);
        let keys = seq!["schema"@, "commands"@];
        assert(keys[0] == "schema"@ && keys[1] == "commands"@);
        assert(crate::proposals::application::only_parts(payload, keys));
    } else {
        assert(part(payload, 0, "schema"@) == Some(parts[0]));
        assert(part(payload, 1, "commands"@) == Some(parts[1]));
    }
    if payload_reads(payload, items) {
        assert(command_of(parts[1]->Array_0@[k], items[k]) is Some);
    }
}

/// A payload of another schema is refused.
pub proof fn other_schemas_are_refused(payload: Json, items: Seq<ReadItem>, name: Json)
    requires
        part(payload, 0, "schema"@) == Some(name),
        name is Text,
        name->Text_0@ != "dayweave.proposal-change-set/1"@,
    ensures
        payload_values(payload) is None,
        !payload_reads(payload, items),
{
}

/// The identifier of a command.
pub open spec fn id_of(command: ProposalCommand) -> Uuid {
    match command {
        ProposalCommand::CreateItem { command_id, .. } => command_id,
        ProposalCommand::ReplaceItem { command_id, .. } => command_id,
        ProposalCommand::TrashItem { command_id, .. } => command_id,
        ProposalCommand::RestoreItem { command_id, .. } => command_id,
    }
}

/// The item that a command is about.
pub open spec fn target_of(command: ProposalCommand) -> Uuid {
    match command {
        ProposalCommand::CreateItem { item, .. } => item.id,
        ProposalCommand::ReplaceItem { item_id, .. } => item_id,
        ProposalCommand::TrashItem { item_id, .. } => item_id,
        ProposalCommand::RestoreItem { item_id, .. } => item_id,
    }
}

/// Whether a command names revision zero, which no item has.
pub open spec fn names_revision_zero(command: ProposalCommand) -> bool {
    match command {
        ProposalCommand::CreateItem { .. } => false,
        ProposalCommand::ReplaceItem { expected_revision, .. } => expected_revision == 0,
        ProposalCommand::TrashItem { expected_revision, .. } => expected_revision == 0,
        ProposalCommand::RestoreItem { expected_revision, .. } => expected_revision == 0,
    }
}

/// A batch can be carried out exactly if it has one to a hundred commands, no two of which have
/// the same identifier or are about the same item, and none of which names revision zero.
pub proof fn sound_batches_are_taken(commands: Seq<ProposalCommand>)
    ensures
        well_formed(commands) <==> {
            &&& 1 <= commands.len() <= 100
            &&& forall|i: int, j: int|
                0 <= i < commands.len() && 0 <= j < commands.len() && i != j ==> id_of(
                    #[trigger] commands[i],
                ) != id_of(#[trigger] commands[j]) && target_of(commands[i]) != target_of(
                    commands[j],
                )
            &&& forall|i: int|
                0 <= i < commands.len() ==> !names_revision_zero(#[trigger] commands[i])
        },
{
    if well_formed(commands) {
        assert forall|i: int, j: int|
            0 <= i < commands.len() && 0 <= j < commands.len() && i != j implies id_of(
            #[trigger] commands[i],
        ) != id_of(#[trigger] commands[j]) && target_of(commands[i]) != target_of(commands[j]) by {
            if i < j {
                assert(commands[i].spec_command_id() != commands[j].spec_command_id());
                assert(commands[i].spec_target() != commands[j].spec_target());
            } else {
                assert(commands[j].spec_command_id() != commands[i].spec_command_id());
                assert(commands[j].spec_target() != commands[i].spec_target());
            }
        }
        assert forall|i: int| 0 <= i < commands.len() implies !names_revision_zero(
            #[trigger] commands[i],
        ) by {
            assert(commands[i].spec_expected_revision() != Some(0u64));
        }
    }
}

/// The refusal of a batch is true of it.
pub proof fn refusal_of_a_batch_is_true(
    commands: Seq<ProposalCommand>,
    error: ProposalChangeSetError,
)
    requires
        refused_with(commands, error),
    ensures
        match error {
            ProposalChangeSetError::Empty => commands.len() == 0,
            ProposalChangeSetError::TooManyCommands { maximum } => maximum == 100
                && commands.len() > maximum,
            ProposalChangeSetError::DuplicateCommandId(id) => exists|i: int, j: int|
                0 <= i < j < commands.len() && id_of(#[trigger] commands[i]) == id && id_of(
                    #[trigger] commands[j],
                ) == id,
            ProposalChangeSetError::DuplicateTargetId(id) => exists|i: int, j: int|
                0 <= i < j < commands.len() && target_of(#[trigger] commands[i]) == id && target_of(
                    #[trigger] commands[j],
                ) == id,
            ProposalChangeSetError::ExpectedRevisionMustBePositive(id) => exists|i: int|
                0 <= i < commands.len() && id_of(#[trigger] commands[i]) == id
                    && names_revision_zero(commands[i]),
            ProposalChangeSetError::InvalidPayload => false,
        },
{
    if 0 < commands.len() <= 100 {
        let k = choose|k: int|
            0 <= k < commands.len() && #[trigger] crate::proposals::application::command_error(
                commands,
                k,
            ) == Some(error) && forall|j: int|
                0 <= j < k ==> #[trigger] crate::proposals::application::command_error(
                    commands,
                    j,
                ) is None;
        match error {
            ProposalChangeSetError::DuplicateCommandId(id) => {
                let i = choose|i: int| 0 <= i < k && (#[trigger] commands[i]).spec_command_id() == id;
                assert(id_of(commands[i]) == id && id_of(commands[k]) == id);
            },
            ProposalChangeSetError::DuplicateTargetId(id) => {
                let i = choose|i: int| 0 <= i < k && (#[trigger] commands[i]).spec_target() == id;
                assert(target_of(commands[i]) == id && target_of(commands[k]) == id);
            },
            ProposalChangeSetError::ExpectedRevisionMustBePositive(id) => {
                assert(id_of(commands[k]) == id && names_revision_zero(commands[k]));
            },
            _ => {},
        }
    }
}

/// A command is told apart by what it does, and tells the revision that it was made for.
pub proof fn commands_tell_what_they_are(command: ProposalCommand)
    ensures
        (command.spec_operation() == ProposalOperation::CreateItem) == (command is CreateItem),
        (command.spec_operation() == ProposalOperation::ReplaceItem) == (command is ReplaceItem),
        (command.spec_operation() == ProposalOperation::TrashItem) == (command is TrashItem),
        (command.spec_operation() == ProposalOperation::RestoreItem) == (command is RestoreItem),
        command.spec_command_id() == id_of(command),
        command.spec_target() == target_of(command),
        (command.spec_expected_revision() is None) == (command is CreateItem),
        command is ReplaceItem ==> command.spec_expected_revision() == Some(
            command->ReplaceItem_expected_revision,
        ),
        command is TrashItem ==> command.spec_expected_revision() == Some(
            command->TrashItem_expected_revision,
        ),
        command is RestoreItem ==> command.spec_expected_revision() == Some(
            command->RestoreItem_expected_revision,
        ),
{
}

} // verus!
