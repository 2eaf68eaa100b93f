//! The edits that stand for media brought into a project.
use vstd::prelude::*;

verus! {

/// An edit of the project's asset list, by the position of the asset in the list
/// that storage committed.
#[derive(Clone, Copy, Debug, PartialEq, Eq, Structural)]
pub enum AssetCommand {
    Add(usize),
    Update(usize),
}

/// The text of an import whose asset storage did not commit.
pub open spec fn import_missing() -> Seq<char> {
    "imported asset is missing after commit"@
}

/// The text of a split whose asset storage did not commit.
pub open spec fn split_missing() -> Seq<char> {
    "split asset is missing after commit"@
}

/// Whether `position` is the first place of `id` in `ids`.
pub open spec fn first_place(ids: Seq<u128>, id: u128, position: int) -> bool {
    &&& 0 <= position < ids.len()
    &&& ids[position] == id
    &&& forall|i: int| 0 <= i < position ==> ids[i] != id
}

/// The first place of `id` in `ids`.
pub fn find_asset(ids: &Vec<u128>, id: u128) -> (position: Option<usize>)
    ensures
        position is Some <==> ids@.contains(id),
        position is Some ==> first_place(ids@, id, position->0 as int),
{
    let mut index: usize = 0;
    while index < ids.len()
        invariant
            index <= ids.len(),
            forall|i: int| 0 <= i < index ==> ids[i] != id,
        decreases ids.len() - index,
    {
        if ids[index] == id {
            return Some(index);
        }
        index += 1;
    }
    None
}

/// The edit that turns the project of before an import into the committed one: the
/// imported asset is updated where it was known, and added where it was not.
pub fn import_command(before: &Vec<u128>, committed: &Vec<u128>, imported: u128) -> (command: Result<
    AssetCommand,
    String,
>)
    ensures
        command is Ok <==> committed@.contains(imported),
        command matches Ok(AssetCommand::Update(position)) ==> before@.contains(imported)
            && first_place(committed@, imported, position as int),
        command matches Ok(AssetCommand::Add(position)) ==> !before@.contains(imported)
            && first_place(committed@, imported, position as int),
        command is Err ==> command->Err_0@ == import_missing(),
{
    match find_asset(committed, imported) {
        Some(position) => if find_asset(before, imported).is_some() {
            Ok(AssetCommand::Update(position))
        } else {
            Ok(AssetCommand::Add(position))
        },
        None => Err(String::from_str("imported asset is missing after commit")),
    }
}

/// The edits that add the assets a split created, in the order of their creation.
pub fn split_commands(committed: &Vec<u128>, created: &Vec<u128>) -> (commands: Result<
    Vec<AssetCommand>,
    String,
>)
    ensures
        commands is Ok <==> forall|i: int|
            0 <= i < created.len() ==> committed@.contains(#[trigger] created[i]),
        commands matches Ok(list) ==> {
            &&& list.len() == created.len()
            &&& forall|i: int|
                0 <= i < list.len() ==> #[trigger] list[i] is Add && first_place(
                    committed@,
                    created[i],
                    list[i]->Add_0 as int,
                )
        },
        commands is Err ==> commands->Err_0@ == split_missing(),
{
    let mut list: Vec<AssetCommand> = Vec::new();
    let mut index: usize = 0;
    while index < created.len()
        invariant
            index <= created.len(),
            list.len() == index,
            forall|i: int| 0 <= i < index ==> committed@.contains(#[trigger] created[i]),
            forall|i: int|
                0 <= i < index ==> #[trigger] list[i] is Add && first_place(
                    committed@,
                    created[i],
                    list[i]->Add_0 as int,
                ),
        decreases created.len() - index,
    {
        match find_asset(committed, created[index]) {
            Some(position) => list.push(AssetCommand::Add(position)),
            None => {
                assert(!committed@.contains(created[index as int]));
                return Err(String::from_str("split asset is missing after commit"));
            },
        }
        index += 1;
    }
    Ok(list)
}

/// What an edit that was replayed on the project of before must come to: the committed
/// project. Anything else means that somebody else wrote in between.
pub fn confirm_commit(replayed: Result<bool, String>, conflict: &str) -> (result: Result<(), String>)
    ensures
        match replayed {
            Ok(true) => result is Ok,
            Ok(false) => result is Err && result->Err_0@ == conflict@,
            Err(message) => result == Err::<(), String>(message),
        },
{
    match replayed {
        Ok(matches) => if matches {
            Ok(())
        } else {
            Err(String::from_str(conflict))
        },
        Err(message) => Err(message),
    }
}

/// A file has one first place: where it stands and nothing before it is the same.
pub proof fn files_have_one_first_place(ids: Seq<u128>, id: u128, place: int, other: int)
    ensures
        first_place(ids, id, place) && first_place(ids, id, other) ==> place == other,
        ids.len() > 0 && ids[0] == id ==> first_place(ids, id, 0),
        first_place(ids, id, place) ==> ids.contains(id) && !ids.take(place).contains(id),
{
}

} // verus!
