//! What holds of the list of search results.

use vstd::prelude::*;
use vstd::string::*;

use crate::order::{
    concat_map, law_ordered_texts, lemma_boxes_hold_all, lemma_concat_add, lemma_concat_locate,
    lemma_concat_mapped, lemma_concat_multisets, lemma_concat_nested, lemma_concat_one_item,
    lemma_concat_only, lemma_concat_same, lemma_concat_singles, lemma_concat_split,
    lemma_distinct, lemma_filter_all, lemma_filter_members, ordered_texts, text_less,
};
use crate::soulseek::{
    chevron, file_row, folder_block, folder_key_text, folder_part, folder_row, folders_of,
    in_folder, of_user, result_rows, user_block, user_key_text, user_row, users_of, RowView,
    law_downloads_take_the_shown_hits_in_scope, SoulseekHit, SoulseekRowKind, SoulseekScope,
    SoulseekView,
};

verus! {

/// The hits of the files' rows, from the top.
pub open spec fn shown_files(rows: Seq<RowView>) -> Seq<SoulseekHit> {
    concat_map(rows, pick_file())
}

pub open spec fn pick_file() -> spec_fn(RowView) -> Seq<SoulseekHit> {
    |row: RowView|
        if row.kind == SoulseekRowKind::File && row.hit is Some {
            seq![row.hit->0]
        } else {
            Seq::empty()
        }
}

/// The users whose rows are shown, from the top.
pub open spec fn shown_users(rows: Seq<RowView>) -> Seq<Seq<char>> {
    concat_map(rows, pick_user())
}

pub open spec fn pick_user() -> spec_fn(RowView) -> Seq<Seq<char>> {
    |row: RowView|
        if row.kind == SoulseekRowKind::User {
            seq![row.username]
        } else {
            Seq::empty()
        }
}

/// The folders of a user whose rows are shown, from the top.
pub open spec fn shown_folders(rows: Seq<RowView>, user: Seq<char>) -> Seq<Seq<char>> {
    concat_map(rows, pick_folder(user))
}

pub open spec fn pick_folder(user: Seq<char>) -> spec_fn(RowView) -> Seq<Seq<char>> {
    |row: RowView|
        if row.kind == SoulseekRowKind::Folder && row.username == user && row.folder is Some {
            seq![row.folder->0]
        } else {
            Seq::empty()
        }
}

/// The hits of the rows of the files in a user's folder, from the top.
pub open spec fn shown_in_folder(rows: Seq<RowView>, user: Seq<char>, folder: Seq<char>) -> Seq<
    SoulseekHit,
> {
    concat_map(rows, pick_in_folder(user, folder))
}

pub open spec fn pick_in_folder(user: Seq<char>, folder: Seq<char>) -> spec_fn(RowView) -> Seq<
    SoulseekHit,
> {
    |row: RowView|
        if row.kind == SoulseekRowKind::File && row.username == user && row.folder == Some(folder)
            && row.hit is Some {
            seq![row.hit->0]
        } else {
            Seq::empty()
        }
}

/// The user whose row is the last one at or above the `i`-th row.
pub open spec fn user_above(rows: Seq<RowView>, i: int) -> Option<Seq<char>>
    decreases i + 1,
{
    if i < 0 || i >= rows.len() {
        None
    } else if rows[i].kind == SoulseekRowKind::User {
        Some(rows[i].username)
    } else {
        user_above(rows, i - 1)
    }
}

/// The folder whose row is the last one at or above the `i`-th row and below the row of its
/// user.
pub open spec fn folder_above(rows: Seq<RowView>, i: int) -> Option<Seq<char>>
    decreases i + 1,
{
    if i < 0 || i >= rows.len() || rows[i].kind == SoulseekRowKind::User {
        None
    } else if rows[i].kind == SoulseekRowKind::Folder {
        rows[i].folder
    } else {
        folder_above(rows, i - 1)
    }
}

/// Whether a row stands below the rows that it belongs to.
pub open spec fn well_placed(rows: Seq<RowView>, i: int) -> bool {
    match rows[i].kind {
        SoulseekRowKind::User => true,
        SoulseekRowKind::Folder => user_above(rows, i) == Some(rows[i].username),
        SoulseekRowKind::File => {
            &&& rows[i].hit is Some
            &&& user_above(rows, i) == Some(rows[i].hit->0.username@)
            &&& folder_above(rows, i) == Some(folder_part(rows[i].hit->0.name@))
        },
    }
}

spec fn none() -> Set<Seq<char>> {
    Set::empty()
}

/// What is picked of a folder's block.
spec fn folder_picks<X>(
    hits: Seq<SoulseekHit>,
    user: Seq<char>,
    folder: Seq<char>,
    pick: spec_fn(RowView) -> Seq<X>,
) -> Seq<X> {
    pick(folder_row(hits, user, folder, none())) + concat_map(
        in_folder(hits, user, folder),
        |hit: SoulseekHit| pick(file_row(hit)),
    )
}

/// What is picked of a user's block.
spec fn user_picks<X>(
    hits: Seq<SoulseekHit>,
    user: Seq<char>,
    pick: spec_fn(RowView) -> Seq<X>,
) -> Seq<X> {
    pick(user_row(hits, user, none())) + concat_map(
        folders_of(hits, user),
        |folder: Seq<char>| folder_picks(hits, user, folder, pick),
    )
}

proof fn lemma_folder_picks<X>(
    hits: Seq<SoulseekHit>,
    user: Seq<char>,
    folder: Seq<char>,
    pick: spec_fn(RowView) -> Seq<X>,
)
    ensures
        concat_map(folder_block(hits, user, folder, none()), pick) == folder_picks(
            hits,
            user,
            folder,
            pick,
        ),
{
    let own = in_folder(hits, user, folder);
    let row = |hit: SoulseekHit| file_row(hit);
    let head = folder_row(hits, user, folder, none());
    lemma_concat_add(seq![head], own.map_values(row), pick);
    lemma_concat_one_item(head, pick);
    lemma_concat_mapped(own, row, pick);
    lemma_concat_same(
        own,
        |hit: SoulseekHit| pick(row(hit)),
        |hit: SoulseekHit| pick(file_row(hit)),
    );
    assert(folder_block(hits, user, folder, none()) == seq![head] + own.map_values(row));
}

proof fn lemma_user_picks<X>(
    hits: Seq<SoulseekHit>,
    user: Seq<char>,
    pick: spec_fn(RowView) -> Seq<X>,
)
    ensures
        concat_map(user_block(hits, user, none()), pick) == user_picks(hits, user, pick),
{
    let block = |folder: Seq<char>| folder_block(hits, user, folder, none());
    let folders = folders_of(hits, user);
    let head = user_row(hits, user, none());
    lemma_concat_add(seq![head], concat_map(folders, block), pick);
    lemma_concat_one_item(head, pick);
    lemma_concat_nested(folders, block, pick);
    assert forall|i: int| 0 <= i < folders.len() implies concat_map(
        block(#[trigger] folders[i]),
        pick,
    ) == folder_picks(hits, user, folders[i], pick) by {
        lemma_folder_picks(hits, user, folders[i], pick);
    }
    lemma_concat_same(
        folders,
        |folder: Seq<char>| concat_map(block(folder), pick),
        |folder: Seq<char>| folder_picks(hits, user, folder, pick),
    );
    assert(user_block(hits, user, none()) == seq![head] + concat_map(folders, block));
}

proof fn lemma_rows_pick<X>(hits: Seq<SoulseekHit>, pick: spec_fn(RowView) -> Seq<X>)
    ensures
        concat_map(result_rows(hits, none()), pick) == concat_map(
            users_of(hits),
            |user: Seq<char>| user_picks(hits, user, pick),
        ),
{
    let block = |user: Seq<char>| user_block(hits, user, none());
    let users = users_of(hits);
    lemma_concat_nested(users, block, pick);
    assert forall|i: int| 0 <= i < users.len() implies concat_map(block(#[trigger] users[i]), pick)
        == user_picks(hits, users[i], pick) by {
        lemma_user_picks(hits, users[i], pick);
    }
    lemma_concat_same(
        users,
        |user: Seq<char>| concat_map(block(user), pick),
        |user: Seq<char>| user_picks(hits, user, pick),
    );
    assert(result_rows(hits, none()) == concat_map(users, block));
}

/// The folders of a user differ from one another, and are those of the user's hits.
proof fn lemma_folders(hits: Seq<SoulseekHit>, user: Seq<char>)
    ensures
        folders_of(hits, user).no_duplicates(),
        forall|hit: SoulseekHit| #[trigger]
            hits.contains(hit) && hit.username@ == user ==> folders_of(hits, user).contains(
                folder_part(hit.name@),
            ),
{
    let own = of_user(hits, user);
    let parts = own.map_values(|hit: SoulseekHit| folder_part(hit.name@));
    let folders = folders_of(hits, user);
    law_ordered_texts(parts);
    assert forall|i: int, j: int|
        0 <= i < folders.len() && 0 <= j < folders.len() && i != j implies folders[i]
        != folders[j] by {
        if i < j {
            assert(text_less(folders[i], folders[j]));
            crate::order::law_text_order(folders[i], folders[j], folders[i]);
        } else {
            assert(text_less(folders[j], folders[i]));
            crate::order::law_text_order(folders[j], folders[i], folders[j]);
        }
    }
    assert forall|hit: SoulseekHit| #[trigger]
        hits.contains(hit) && hit.username@ == user implies folders.contains(
        folder_part(hit.name@),
    ) by {
        lemma_filter_members(hits, |h: SoulseekHit| h.username@ == user);
        assert(own.contains(hit));
        let i = choose|i: int| 0 <= i < own.len() && own[i] == hit;
        assert(parts[i] == folder_part(hit.name@));
        assert(parts.contains(folder_part(hit.name@)));
    }
}

/// The users differ from one another, and are those of the hits.
proof fn lemma_users(hits: Seq<SoulseekHit>)
    ensures
        users_of(hits).no_duplicates(),
        forall|hit: SoulseekHit| #[trigger]
            hits.contains(hit) ==> users_of(hits).contains(hit.username@),
        forall|user: Seq<char>| #[trigger]
            users_of(hits).contains(user) ==> exists|i: int|
                0 <= i < hits.len() && #[trigger] hits[i].username@ == user,
{
    let names = hits.map_values(|hit: SoulseekHit| hit.username@);
    lemma_distinct(names);
    assert forall|hit: SoulseekHit| #[trigger] hits.contains(hit) implies users_of(hits).contains(
        hit.username@,
    ) by {
        let i = choose|i: int| 0 <= i < hits.len() && hits[i] == hit;
        assert(names[i] == hit.username@);
        assert(names.contains(hit.username@));
    }
    assert forall|user: Seq<char>| #[trigger] users_of(hits).contains(user) implies exists|i: int|
        0 <= i < hits.len() && #[trigger] hits[i].username@ == user by {
        assert(names.contains(user));
        let i = choose|i: int| 0 <= i < names.len() && names[i] == user;
        assert(hits[i].username@ == user);
    }
}

proof fn lemma_of_user(
    hits: Seq<SoulseekHit>,
    user: Seq<char>,
    keep: spec_fn(SoulseekHit) -> bool,
)
    requires
        forall|hit: SoulseekHit| #[trigger] keep(hit) == (hit.username@ == user),
    ensures
        of_user(hits, user) == hits.filter(keep),
    decreases hits.len(),
{
    reveal(Seq::filter);
    if hits.len() > 0 {
        lemma_of_user(hits.drop_last(), user, keep);
        assert(keep(hits.last()) == (hits.last().username@ == user));
    }
}

proof fn lemma_in_folder(
    hits: Seq<SoulseekHit>,
    user: Seq<char>,
    folder: Seq<char>,
    keep: spec_fn(SoulseekHit) -> bool,
)
    requires
        forall|hit: SoulseekHit| #[trigger]
            keep(hit) == (hit.username@ == user && folder_part(hit.name@) == folder),
    ensures
        in_folder(hits, user, folder) == hits.filter(keep),
        forall|i: int|
            0 <= i < in_folder(hits, user, folder).len() ==> (#[trigger] in_folder(
                hits,
                user,
                folder,
            )[i]).username@ == user && folder_part(in_folder(hits, user, folder)[i].name@)
                == folder,
    decreases hits.len(),
{
    reveal(Seq::filter);
    if hits.len() > 0 {
        lemma_in_folder(hits.drop_last(), user, folder, keep);
        assert(keep(hits.last()) == (hits.last().username@ == user && folder_part(
            hits.last().name@,
        ) == folder));
    }
}

/// The files' rows are the hits, each once.
proof fn lemma_files_are_the_hits(hits: Seq<SoulseekHit>)
    ensures
        shown_files(result_rows(hits, none())).to_multiset() == hits.to_multiset(),
{
    let pick = pick_file();
    let users = users_of(hits);
    lemma_rows_pick(hits, pick);
    lemma_users(hits);
    let picks = |user: Seq<char>| user_picks(hits, user, pick);
    let always = |hit: SoulseekHit| true;
    let name = |hit: SoulseekHit| hit.username@;
    let by_user = |user: Seq<char>| hits.filter(|hit: SoulseekHit| always(hit) && name(hit) == user);
    assert forall|i: int| 0 <= i < users.len() implies picks(#[trigger] users[i]).to_multiset()
        == by_user(users[i]).to_multiset() by {
        lemma_files_of_user(hits, users[i]);
        lemma_of_user(
            hits,
            users[i],
            |hit: SoulseekHit| always(hit) && name(hit) == users[i],
        );
    }
    lemma_concat_multisets(users, picks, by_user);
    lemma_boxes_hold_all(users, hits, always, name);
    let kept = |hit: SoulseekHit| always(hit) && users.contains(name(hit));
    assert forall|i: int| 0 <= i < hits.len() implies kept(#[trigger] hits[i]) by {
        assert(hits.contains(hits[i]));
    }
    lemma_filter_all(hits, kept);
}

proof fn lemma_files_of_user(hits: Seq<SoulseekHit>, user: Seq<char>)
    ensures
        user_picks(hits, user, pick_file()).to_multiset() == of_user(hits, user).to_multiset(),
{
    let pick = pick_file();
    let folders = folders_of(hits, user);
    let picks = |folder: Seq<char>| folder_picks(hits, user, folder, pick);
    let base = |hit: SoulseekHit| hit.username@ == user;
    let key = |hit: SoulseekHit| folder_part(hit.name@);
    let boxed = |folder: Seq<char>|
        hits.filter(|hit: SoulseekHit| base(hit) && key(hit) == folder);
    lemma_folders(hits, user);
    assert forall|i: int| 0 <= i < folders.len() implies picks(#[trigger] folders[i]) == boxed(
        folders[i],
    ) by {
        let own = in_folder(hits, user, folders[i]);
        let file = |hit: SoulseekHit| pick(file_row(hit));
        lemma_concat_singles(own, file, |hit: SoulseekHit| hit);
        assert(own.map_values(|hit: SoulseekHit| hit) =~= own);
        assert(picks(folders[i]) =~= own);
        lemma_in_folder(
            hits,
            user,
            folders[i],
            |hit: SoulseekHit| base(hit) && key(hit) == folders[i],
        );
    }
    lemma_concat_same(folders, picks, boxed);
    lemma_boxes_hold_all(folders, hits, base, key);
    let kept = |hit: SoulseekHit| base(hit) && folders.contains(key(hit));
    lemma_same_filter(hits, kept, base);
    assert(user_picks(hits, user, pick) =~= concat_map(folders, picks));
    lemma_of_user(hits, user, base);
}

/// Conditions that agree on the elements of a list keep the same of it.
proof fn lemma_same_filter(
    hits: Seq<SoulseekHit>,
    p: spec_fn(SoulseekHit) -> bool,
    q: spec_fn(SoulseekHit) -> bool,
)
    requires
        forall|hit: SoulseekHit| #[trigger] hits.contains(hit) ==> p(hit) == q(hit),
    ensures
        hits.filter(p) == hits.filter(q),
    decreases hits.len(),
{
    reveal(Seq::filter);
    if hits.len() > 0 {
        let rest = hits.drop_last();
        assert forall|hit: SoulseekHit| #[trigger] rest.contains(hit) implies p(hit) == q(hit) by {
            let i = choose|i: int| 0 <= i < rest.len() && rest[i] == hit;
            assert(hits[i] == hit);
            assert(hits.contains(hit));
        }
        lemma_same_filter(rest, p, q);
        assert(hits[hits.len() - 1] == hits.last());
        assert(hits.contains(hits.last()));
    }
}

proof fn lemma_users_shown(hits: Seq<SoulseekHit>)
    ensures
        shown_users(result_rows(hits, none())) == users_of(hits),
{
    let pick = pick_user();
    let users = users_of(hits);
    lemma_rows_pick(hits, pick);
    let picks = |user: Seq<char>| user_picks(hits, user, pick);
    assert forall|i: int| 0 <= i < users.len() implies picks(#[trigger] users[i]) == seq![
        users[i],
    ] by {
        let folders = folders_of(hits, users[i]);
        let inner = |folder: Seq<char>| folder_picks(hits, users[i], folder, pick);
        assert forall|k: int| 0 <= k < folders.len() && k != -1 implies inner(
            #[trigger] folders[k],
        ).len() == 0 by {
            lemma_concat_only(
                in_folder(hits, users[i], folders[k]),
                |hit: SoulseekHit| pick(file_row(hit)),
                -1,
            );
        }
        lemma_concat_only(folders, inner, -1);
        assert(picks(users[i]) =~= seq![users[i]]);
    }
    lemma_concat_singles(users, picks, |user: Seq<char>| user);
    assert(users.map_values(|user: Seq<char>| user) =~= users);
}

proof fn lemma_folders_shown(hits: Seq<SoulseekHit>, at: int)
    requires
        0 <= at < users_of(hits).len(),
    ensures
        shown_folders(result_rows(hits, none()), users_of(hits)[at]) == folders_of(
            hits,
            users_of(hits)[at],
        ),
{
    let users = users_of(hits);
    let user = users[at];
    let pick = pick_folder(user);
    lemma_rows_pick(hits, pick);
    lemma_users(hits);
    let picks = |user: Seq<char>| user_picks(hits, user, pick);
    assert forall|i: int| 0 <= i < users.len() implies {
        let folders = folders_of(hits, users[i]);
        picks(#[trigger] users[i]) == if i == at {
            folders
        } else {
            Seq::empty()
        }
    } by {
        let folders = folders_of(hits, users[i]);
        let inner = |folder: Seq<char>| folder_picks(hits, users[i], folder, pick);
        assert forall|k: int| 0 <= k < folders.len() implies inner(#[trigger] folders[k]) == if i
            == at {
            seq![folders[k]]
        } else {
            Seq::empty()
        } by {
            lemma_concat_only(
                in_folder(hits, users[i], folders[k]),
                |hit: SoulseekHit| pick(file_row(hit)),
                -1,
            );
            assert(inner(folders[k]) =~= if i == at {
                seq![folders[k]]
            } else {
                Seq::empty()
            });
        }
        if i == at {
            lemma_concat_singles(folders, inner, |folder: Seq<char>| folder);
            assert(picks(users[i]) =~= folders);
        } else {
            lemma_concat_only(folders, inner, -1);
            assert(picks(users[i]) =~= Seq::empty());
        }
    }
    lemma_concat_only(users, picks, at);
}

proof fn lemma_files_shown(hits: Seq<SoulseekHit>, at: int, in_at: int)
    requires
        0 <= at < users_of(hits).len(),
        0 <= in_at < folders_of(hits, users_of(hits)[at]).len(),
    ensures
        ({
            let user = users_of(hits)[at];
            let folder = folders_of(hits, user)[in_at];
            shown_in_folder(result_rows(hits, none()), user, folder) == in_folder(
                hits,
                user,
                folder,
            )
        }),
{
    let users = users_of(hits);
    let user = users[at];
    let folder = folders_of(hits, user)[in_at];
    let pick = pick_in_folder(user, folder);
    lemma_rows_pick(hits, pick);
    lemma_users(hits);
    let picks = |user: Seq<char>| user_picks(hits, user, pick);
    assert forall|i: int| 0 <= i < users.len() implies picks(#[trigger] users[i]) == if i == at {
        in_folder(hits, user, folder)
    } else {
        Seq::empty()
    } by {
        let folders = folders_of(hits, users[i]);
        let inner = |folder: Seq<char>| folder_picks(hits, users[i], folder, pick);
        lemma_folders(hits, users[i]);
        assert forall|k: int| 0 <= k < folders.len() implies inner(#[trigger] folders[k]) == if i
            == at && k == in_at {
            in_folder(hits, user, folder)
        } else {
            Seq::empty()
        } by {
            let own = in_folder(hits, users[i], folders[k]);
            let file = |hit: SoulseekHit| pick(file_row(hit));
            lemma_in_folder(
                hits,
                users[i],
                folders[k],
                |hit: SoulseekHit|
                    hit.username@ == users[i] && folder_part(hit.name@) == folders[k],
            );
            if i == at && k == in_at {
                lemma_concat_singles(own, file, |hit: SoulseekHit| hit);
                assert(own.map_values(|hit: SoulseekHit| hit) =~= own);
                assert(inner(folders[k]) =~= own);
            } else {
                lemma_concat_only(own, file, -1);
                assert(inner(folders[k]) =~= Seq::empty());
            }
        }
        if i == at {
            lemma_concat_only(folders, inner, in_at);
            assert(picks(users[i]) =~= in_folder(hits, user, folder));
        } else {
            lemma_concat_only(folders, inner, -1);
            assert(picks(users[i]) =~= Seq::empty());
        }
    }
    lemma_concat_only(users, picks, at);
}

/// Rows behind do not change what stands above a row; rows before a user's row, or a folder's,
/// do not change what stands above a row behind it.
proof fn lemma_above(front: Seq<RowView>, back: Seq<RowView>, i: int)
    requires
        0 <= i,
    ensures
        i < front.len() ==> user_above(front + back, i) == user_above(front, i),
        i < front.len() ==> folder_above(front + back, i) == folder_above(front, i),
        i < back.len() && back[0].kind == SoulseekRowKind::User ==> user_above(
            front + back,
            front.len() + i,
        ) == user_above(back, i),
        i < back.len() && back[0].kind != SoulseekRowKind::File ==> folder_above(
            front + back,
            front.len() + i,
        ) == folder_above(back, i),
    decreases i,
{
    reveal_with_fuel(user_above, 2);
    reveal_with_fuel(folder_above, 2);
    if i > 0 {
        lemma_above(front, back, i - 1);
    }
}

/// Rows of folders and files behind one another: the user above stays.
proof fn lemma_user_above_stays(front: Seq<RowView>, back: Seq<RowView>, i: int)
    requires
        0 <= i < back.len(),
        front.len() > 0,
        forall|k: int| 0 <= k < back.len() ==> (#[trigger] back[k]).kind != SoulseekRowKind::User,
    ensures
        user_above(front + back, front.len() + i) == user_above(front, front.len() - 1),
    decreases i,
{
    if i > 0 {
        lemma_user_above_stays(front, back, i - 1);
    } else {
        lemma_above(front, back, front.len() - 1);
    }
    assert((front + back)[front.len() + i] == back[i]);
}

proof fn lemma_folder_block_placed(
    front: Seq<RowView>,
    hits: Seq<SoulseekHit>,
    user: Seq<char>,
    folder: Seq<char>,
)
    requires
        front.len() > 0,
        user_above(front, front.len() - 1) == Some(user),
    ensures
        ({
            let block = folder_block(hits, user, folder, none());
            &&& block.len() > 0
            &&& user_above(front + block, front.len() + block.len() - 1) == Some(user)
            &&& forall|i: int|
                0 <= i < block.len() ==> #[trigger] well_placed(front + block, front.len() + i)
        }),
{
    let block = folder_block(hits, user, folder, none());
    lemma_in_folder(
        hits,
        user,
        folder,
        |hit: SoulseekHit| hit.username@ == user && folder_part(hit.name@) == folder,
    );
    assert forall|i: int| 0 <= i < block.len() implies user_above(front + block, front.len() + i)
        == Some(user) && #[trigger] well_placed(front + block, front.len() + i) by {
        lemma_user_above_stays(front, block, i);
        lemma_above(front, block, i);
        lemma_folder_above_in_block(hits, user, folder, i);
        assert((front + block)[front.len() + i] == block[i]);
    }
    assert(well_placed(front + block, front.len() + (block.len() - 1)));
}

proof fn lemma_folder_above_in_block(
    hits: Seq<SoulseekHit>,
    user: Seq<char>,
    folder: Seq<char>,
    i: int,
)
    requires
        0 <= i < folder_block(hits, user, folder, none()).len(),
    ensures
        folder_above(folder_block(hits, user, folder, none()), i) == Some(folder),
    decreases i,
{
    if i > 0 {
        lemma_folder_above_in_block(hits, user, folder, i - 1);
    }
}

proof fn lemma_folders_placed(
    front: Seq<RowView>,
    hits: Seq<SoulseekHit>,
    user: Seq<char>,
    folders: Seq<Seq<char>>,
)
    requires
        front.len() > 0,
        user_above(front, front.len() - 1) == Some(user),
        forall|i: int| 0 <= i < front.len() ==> #[trigger] well_placed(front, i),
    ensures
        ({
            let rows = front + concat_map(
                folders,
                |folder: Seq<char>| folder_block(hits, user, folder, none()),
            );
            &&& user_above(rows, rows.len() - 1) == Some(user)
            &&& forall|i: int| 0 <= i < rows.len() ==> #[trigger] well_placed(rows, i)
        }),
    decreases folders.len(),
{
    let block = |folder: Seq<char>| folder_block(hits, user, folder, none());
    let rows = front + concat_map(folders, block);
    if folders.len() == 0 {
        assert(rows =~= front);
    } else {
        let before = front + concat_map(folders.drop_last(), block);
        let last = block(folders.last());
        lemma_folders_placed(front, hits, user, folders.drop_last());
        lemma_folder_block_placed(before, hits, user, folders.last());
        assert(rows =~= before + last);
        assert forall|i: int| 0 <= i < rows.len() implies #[trigger] well_placed(rows, i) by {
            if i < before.len() {
                lemma_above(before, last, i);
                assert(well_placed(before, i));
                assert(rows[i] == before[i]);
            } else {
                assert(well_placed(before + last, before.len() + (i - before.len())));
            }
        }
    }
}

proof fn lemma_rows_placed(hits: Seq<SoulseekHit>, users: Seq<Seq<char>>)
    ensures
        ({
            let rows = concat_map(users, |user: Seq<char>| user_block(hits, user, none()));
            forall|i: int| 0 <= i < rows.len() ==> #[trigger] well_placed(rows, i)
        }),
    decreases users.len(),
{
    let block = |user: Seq<char>| user_block(hits, user, none());
    let rows = concat_map(users, block);
    if users.len() > 0 {
        let before = concat_map(users.drop_last(), block);
        let user = users.last();
        let last = block(user);
        let head = seq![user_row(hits, user, none())];
        lemma_rows_placed(hits, users.drop_last());
        assert(user_above(head, 0) == Some(user));
        assert(well_placed(head, 0));
        lemma_folders_placed(head, hits, user, folders_of(hits, user));
        assert(last == head + concat_map(
            folders_of(hits, user),
            |folder: Seq<char>| folder_block(hits, user, folder, none()),
        ));
        assert(last[0] == head[0]);
        assert forall|i: int| 0 <= i < rows.len() implies #[trigger] well_placed(rows, i) by {
            if i < before.len() {
                lemma_above(before, last, i);
                assert(well_placed(before, i));
                assert(rows[i] == before[i]);
            } else {
                lemma_above(before, last, i - before.len());
                assert(well_placed(last, i - before.len()));
                assert(rows[i] == last[i - before.len()]);
            }
        }
    }
}

/// With nothing folded, the list shows every hit that the filter lets through, each once. The
/// users come in the order of their first hit. Below each come the user's folders in order,
/// and below each of these its files in the order of the hits. Every row stands below the rows
/// of its own user and folder.
pub proof fn law_the_open_list_shows_every_hit(ui: SoulseekView)
    requires
        ui.collapsed == Set::<Seq<char>>::empty(),
    ensures
        shown_files(ui.rows()).to_multiset() == ui.matching().to_multiset(),
        shown_users(ui.rows()) == users_of(ui.matching()),
        shown_users(ui.rows()).no_duplicates(),
        forall|user: Seq<char>| #[trigger]
            users_of(ui.matching()).contains(user) ==> shown_folders(ui.rows(), user) == folders_of(
                ui.matching(),
                user,
            ),
        forall|user: Seq<char>, i: int, j: int|
            users_of(ui.matching()).contains(user) && 0 <= i < j < shown_folders(
                ui.rows(),
                user,
            ).len() ==> text_less(
                #[trigger] shown_folders(ui.rows(), user)[i],
                #[trigger] shown_folders(ui.rows(), user)[j],
            ),
        forall|user: Seq<char>, folder: Seq<char>|
            users_of(ui.matching()).contains(user) && folders_of(ui.matching(), user).contains(
                folder,
            ) ==> #[trigger] shown_in_folder(ui.rows(), user, folder) == in_folder(
                ui.matching(),
                user,
                folder,
            ),
        forall|i: int| 0 <= i < ui.rows().len() ==> #[trigger] well_placed(ui.rows(), i),
{
    let hits = ui.matching();
    let users = users_of(hits);
    lemma_files_are_the_hits(hits);
    lemma_users_shown(hits);
    lemma_users(hits);
    lemma_rows_placed(hits, users);
    assert forall|user: Seq<char>| #[trigger] users.contains(user) implies shown_folders(
        ui.rows(),
        user,
    ) == folders_of(hits, user) by {
        let at = choose|at: int| 0 <= at < users.len() && users[at] == user;
        lemma_folders_shown(hits, at);
    }
    assert forall|user: Seq<char>, i: int, j: int|
        users.contains(user) && 0 <= i < j < shown_folders(ui.rows(), user).len() implies text_less(
        #[trigger] shown_folders(ui.rows(), user)[i],
        #[trigger] shown_folders(ui.rows(), user)[j],
    ) by {
        law_ordered_texts(
            of_user(hits, user).map_values(|hit: SoulseekHit| folder_part(hit.name@)),
        );
    }
    assert forall|user: Seq<char>, folder: Seq<char>|
        users.contains(user) && folders_of(hits, user).contains(
            folder,
        ) implies #[trigger] shown_in_folder(ui.rows(), user, folder) == in_folder(
        hits,
        user,
        folder,
    ) by {
        let at = choose|at: int| 0 <= at < users.len() && users[at] == user;
        let folders = folders_of(hits, user);
        let in_at = choose|in_at: int| 0 <= in_at < folders.len() && folders[in_at] == folder;
        lemma_files_shown(hits, at, in_at);
    }
}

/// Whether a row behind the row of a group belongs to the group.
pub open spec fn belongs_below(group: SoulseekRowKind, row: RowView) -> bool {
    match group {
        SoulseekRowKind::User => row.kind != SoulseekRowKind::User,
        SoulseekRowKind::Folder => row.kind == SoulseekRowKind::File,
        SoulseekRowKind::File => false,
    }
}

/// Where the rows of a group end, from the `from`-th row on.
pub open spec fn group_end(rows: Seq<RowView>, group: SoulseekRowKind, from: int) -> int
    decreases rows.len() - from,
{
    if from < 0 || from >= rows.len() || !belongs_below(group, rows[from]) {
        from
    } else {
        group_end(rows, group, from + 1)
    }
}

/// The row of a group, marked as folded or as open.
pub open spec fn marked(row: RowView, folded: bool) -> RowView {
    match row.kind {
        SoulseekRowKind::User => RowView { label: chevron(folded) + " "@ + row.username, ..row },
        SoulseekRowKind::Folder => RowView {
            label: "  "@ + chevron(folded) + " "@ + row.folder->0,
            ..row
        },
        SoulseekRowKind::File => row,
    }
}

/// Whether no user's name holds a colon.
pub open spec fn no_colons(hits: Seq<SoulseekHit>) -> bool {
    forall|i: int, k: int|
        0 <= i < hits.len() && 0 <= k < hits[i].username@.len() ==> #[trigger] hits[i].username@[k]
            != ':'
}

proof fn lemma_user_keys(user: Seq<char>, other: Seq<char>, folder: Seq<char>)
    ensures
        user_key_text(user) == user_key_text(other) ==> user == other,
        user_key_text(user) != folder_key_text(other, folder),
{
    reveal_strlit("u:");
    reveal_strlit("f:");
    assert(user_key_text(user).skip(2) =~= user);
    assert(user_key_text(other).skip(2) =~= other);
    assert(user_key_text(user)[0] == 'u');
    assert(folder_key_text(other, folder)[0] == 'f');
}

proof fn lemma_folder_keys(
    user: Seq<char>,
    folder: Seq<char>,
    other: Seq<char>,
    other_folder: Seq<char>,
)
    requires
        !user.contains(':'),
        !other.contains(':'),
        folder_key_text(user, folder) == folder_key_text(other, other_folder),
    ensures
        user == other,
        folder == other_folder,
{
    reveal_strlit("f:");
    reveal_strlit(":");
    let text = folder_key_text(user, folder);
    let n = user.len() as int;
    let m = other.len() as int;
    assert(text[2 + n] == ':');
    assert(text[2 + m] == ':');
    if n < m {
        assert(other[n] == text[2 + n]);
        assert(other.contains(':'));
    }
    if m < n {
        assert(user[m] == text[2 + m]);
        assert(user.contains(':'));
    }
    assert(text.subrange(2, 2 + n) =~= user);
    assert(text.subrange(2, 2 + n) =~= other);
    assert(text.skip(3 + n) =~= folder);
    assert(text.skip(3 + n) =~= other_folder);
}

/// A user's block does not depend on what is folded elsewhere.
proof fn lemma_block_unchanged(
    hits: Seq<SoulseekHit>,
    user: Seq<char>,
    a: Set<Seq<char>>,
    b: Set<Seq<char>>,
    key: Seq<char>,
)
    requires
        forall|k: Seq<char>| k != key ==> #[trigger] a.contains(k) == b.contains(k),
        key != user_key_text(user),
        forall|folder: Seq<char>| key != #[trigger] folder_key_text(user, folder),
    ensures
        user_block(hits, user, a) == user_block(hits, user, b),
{
    let folders = folders_of(hits, user);
    let fa = |folder: Seq<char>| folder_block(hits, user, folder, a);
    let fb = |folder: Seq<char>| folder_block(hits, user, folder, b);
    assert forall|i: int| 0 <= i < folders.len() implies fa(#[trigger] folders[i]) == fb(
        folders[i],
    ) by {
        assert(key != folder_key_text(user, folders[i]));
        assert(a.contains(folder_key_text(user, folders[i])) == b.contains(
            folder_key_text(user, folders[i]),
        ));
    }
    lemma_concat_same(folders, fa, fb);
    assert(a.contains(user_key_text(user)) == b.contains(user_key_text(user)));
}

/// Below its own row a user's block holds no other user's.
proof fn lemma_block_kinds(
    hits: Seq<SoulseekHit>,
    user: Seq<char>,
    collapsed: Set<Seq<char>>,
    i: int,
)
    requires
        1 <= i < user_block(hits, user, collapsed).len(),
    ensures
        user_block(hits, user, collapsed)[i].kind != SoulseekRowKind::User,
{
    let folders = folders_of(hits, user);
    let block = |folder: Seq<char>| folder_block(hits, user, folder, collapsed);
    let m = lemma_concat_locate(folders, block, i - 1);
    lemma_concat_split(folders, block, m);
    let start = concat_map(folders.take(m), block).len();
    assert(concat_map(folders, block)[i - 1] == block(folders[m])[i - 1 - start]);
}

/// The lists of users begin with a user's row.
proof fn lemma_first_row(hits: Seq<SoulseekHit>, users: Seq<Seq<char>>, collapsed: Set<Seq<char>>)
    ensures
        ({
            let rows = concat_map(users, |user: Seq<char>| user_block(hits, user, collapsed));
            rows.len() > 0 ==> rows[0].kind == SoulseekRowKind::User
        }),
{
    let block = |user: Seq<char>| user_block(hits, user, collapsed);
    if users.len() > 0 {
        lemma_concat_split(users, block, 0);
        assert(users.take(0) =~= Seq::empty());
    }
}

/// The lists of folders begin with a folder's row.
proof fn lemma_first_folder(
    hits: Seq<SoulseekHit>,
    user: Seq<char>,
    folders: Seq<Seq<char>>,
    collapsed: Set<Seq<char>>,
)
    ensures
        ({
            let rows = concat_map(
                folders,
                |folder: Seq<char>| folder_block(hits, user, folder, collapsed),
            );
            rows.len() > 0 ==> rows[0].kind == SoulseekRowKind::Folder
        }),
{
    let block = |folder: Seq<char>| folder_block(hits, user, folder, collapsed);
    if folders.len() > 0 {
        lemma_concat_split(folders, block, 0);
        assert(folders.take(0) =~= Seq::empty());
    }
}

proof fn lemma_group_end(rows: Seq<RowView>, group: SoulseekRowKind, from: int, end: int)
    requires
        0 <= from <= end <= rows.len(),
        forall|i: int| from <= i < end ==> belongs_below(group, #[trigger] rows[i]),
        end < rows.len() ==> !belongs_below(group, rows[end]),
    ensures
        group_end(rows, group, from) == end,
    decreases end - from,
{
    if from < end {
        assert(belongs_below(group, rows[from]));
        lemma_group_end(rows, group, from + 1, end);
    }
}

/// The list round the row of a group: what stands before it, the rows of the group, and what
/// stands behind them.
spec fn parted(
    hits: Seq<SoulseekHit>,
    collapsed: Set<Seq<char>>,
    row: RowView,
    front: Seq<RowView>,
    under: Seq<RowView>,
    back: Seq<RowView>,
) -> bool {
    &&& result_rows(hits, collapsed.remove(row.key)) == front + seq![marked(row, false)] + under
        + back
    &&& result_rows(hits, collapsed.insert(row.key)) == front + seq![marked(row, true)] + back
    &&& forall|i: int| 0 <= i < under.len() ==> belongs_below(row.kind, #[trigger] under[i])
    &&& back.len() > 0 ==> !belongs_below(row.kind, back[0])
    &&& row == marked(row, collapsed.contains(row.key))
}

/// The blocks of the users before and behind one are the same in two views that differ in a key
/// of that one alone.
proof fn lemma_others_unchanged(
    hits: Seq<SoulseekHit>,
    m: int,
    a: Set<Seq<char>>,
    b: Set<Seq<char>>,
    key: Seq<char>,
)
    requires
        0 <= m < users_of(hits).len(),
        no_colons(hits),
        forall|k: Seq<char>| k != key ==> #[trigger] a.contains(k) == b.contains(k),
        key == user_key_text(users_of(hits)[m]) || exists|folder: Seq<char>|
            key == #[trigger] folder_key_text(users_of(hits)[m], folder),
    ensures
        ({
            let users = users_of(hits);
            let fa = |user: Seq<char>| user_block(hits, user, a);
            let fb = |user: Seq<char>| user_block(hits, user, b);
            &&& concat_map(users.take(m), fa) == concat_map(users.take(m), fb)
            &&& concat_map(users.skip(m + 1), fa) == concat_map(users.skip(m + 1), fb)
        }),
{
    let users = users_of(hits);
    let fa = |user: Seq<char>| user_block(hits, user, a);
    let fb = |user: Seq<char>| user_block(hits, user, b);
    lemma_users(hits);
    assert forall|i: int| 0 <= i < users.len() && i != m implies fa(#[trigger] users[i]) == fb(
        users[i],
    ) by {
        lemma_no_colon(hits, i);
        lemma_no_colon(hits, m);
        assert(users[i] != users[m]);
        assert(key != user_key_text(users[i])) by {
            if key == user_key_text(users[m]) {
                lemma_user_keys(users[i], users[m], Seq::empty());
            } else {
                let folder = choose|folder: Seq<char>|
                    key == #[trigger] folder_key_text(users[m], folder);
                lemma_user_keys(users[i], users[m], folder);
            }
        }
        assert forall|other: Seq<char>| key != #[trigger] folder_key_text(users[i], other) by {
            if key == user_key_text(users[m]) {
                lemma_user_keys(users[m], users[i], other);
            } else {
                let folder = choose|folder: Seq<char>|
                    key == #[trigger] folder_key_text(users[m], folder);
                if key == folder_key_text(users[i], other) {
                    lemma_folder_keys(users[m], folder, users[i], other);
                }
            }
        }
        lemma_block_unchanged(hits, users[i], a, b, key);
    }
    let front = users.take(m);
    let back = users.skip(m + 1);
    assert forall|i: int| 0 <= i < front.len() implies fa(#[trigger] front[i]) == fb(front[i]) by {
        assert(front[i] == users[i]);
    }
    assert forall|i: int| 0 <= i < back.len() implies fa(#[trigger] back[i]) == fb(back[i]) by {
        assert(back[i] == users[m + 1 + i]);
    }
    lemma_concat_same(front, fa, fb);
    lemma_concat_same(back, fa, fb);
}

proof fn lemma_no_colon(hits: Seq<SoulseekHit>, i: int)
    requires
        0 <= i < users_of(hits).len(),
        no_colons(hits),
    ensures
        !users_of(hits)[i].contains(':'),
{
    lemma_users(hits);
    let user = users_of(hits)[i];
    assert(users_of(hits).contains(user));
    let j = choose|j: int| 0 <= j < hits.len() && #[trigger] hits[j].username@ == user;
    if user.contains(':') {
        let k = choose|k: int| 0 <= k < user.len() && user[k] == ':';
        assert(hits[j].username@[k] != ':');
    }
}

/// The list round a user's row.
proof fn lemma_user_parted(hits: Seq<SoulseekHit>, collapsed: Set<Seq<char>>, m: int) -> (parts: (
    Seq<RowView>,
    Seq<RowView>,
    Seq<RowView>,
))
    requires
        0 <= m < users_of(hits).len(),
        no_colons(hits),
    ensures
        parted(
            hits,
            collapsed,
            user_row(hits, users_of(hits)[m], collapsed),
            parts.0,
            parts.1,
            parts.2,
        ),
        parts.0 == concat_map(
            users_of(hits).take(m),
            |user: Seq<char>| user_block(hits, user, collapsed),
        ),
{
    let users = users_of(hits);
    let user = users[m];
    let key = user_key_text(user);
    let open = collapsed.remove(key);
    let folded = collapsed.insert(key);
    let f = |user: Seq<char>| user_block(hits, user, collapsed);
    let fo = |user: Seq<char>| user_block(hits, user, open);
    let ff = |user: Seq<char>| user_block(hits, user, folded);
    lemma_others_unchanged(hits, m, collapsed, open, key);
    lemma_others_unchanged(hits, m, collapsed, folded, key);
    lemma_concat_split(users, fo, m);
    lemma_concat_split(users, ff, m);
    let front = concat_map(users.take(m), f);
    let back = concat_map(users.skip(m + 1), f);
    let row = user_row(hits, user, collapsed);
    let under = fo(user).skip(1);
    assert(fo(user)[0] == user_row(hits, user, open));
    assert(user_row(hits, user, open) == marked(row, false));
    assert(user_row(hits, user, folded) == marked(row, true));
    assert(fo(user) =~= seq![marked(row, false)] + under);
    assert(ff(user) =~= seq![marked(row, true)]);
    assert(result_rows(hits, open) == concat_map(users, fo));
    assert(result_rows(hits, folded) == concat_map(users, ff));
    assert(result_rows(hits, open) =~= front + seq![marked(row, false)] + under + back);
    assert(result_rows(hits, folded) =~= front + seq![marked(row, true)] + back);
    assert forall|i: int| 0 <= i < under.len() implies belongs_below(
        row.kind,
        #[trigger] under[i],
    ) by {
        lemma_block_kinds(hits, user, open, i + 1);
        assert(under[i] == fo(user)[i + 1]);
    }
    lemma_first_row(hits, users.skip(m + 1), collapsed);
    (front, under, back)
}

/// Whether this is a user's block round the row of a folder.
spec fn block_parted(
    hits: Seq<SoulseekHit>,
    user: Seq<char>,
    collapsed: Set<Seq<char>>,
    row: RowView,
    before: Seq<RowView>,
    under: Seq<RowView>,
    next: Seq<RowView>,
) -> bool {
    &&& user_block(hits, user, collapsed.remove(row.key)) == before + seq![marked(row, false)]
        + under + next
    &&& user_block(hits, user, collapsed.insert(row.key)) == before + seq![marked(row, true)] + next
    &&& forall|i: int| 0 <= i < under.len() ==> belongs_below(row.kind, #[trigger] under[i])
    &&& next.len() > 0 ==> next[0].kind == SoulseekRowKind::Folder
}

/// The blocks of the other folders are the same in two views that differ in the key of one.
proof fn lemma_other_folders_unchanged(
    hits: Seq<SoulseekHit>,
    user: Seq<char>,
    n: int,
    a: Set<Seq<char>>,
    b: Set<Seq<char>>,
)
    requires
        0 <= n < folders_of(hits, user).len(),
        !user.contains(':'),
        forall|k: Seq<char>|
            k != folder_key_text(user, folders_of(hits, user)[n]) ==> #[trigger] a.contains(k)
                == b.contains(k),
    ensures
        ({
            let folders = folders_of(hits, user);
            let fa = |folder: Seq<char>| folder_block(hits, user, folder, a);
            let fb = |folder: Seq<char>| folder_block(hits, user, folder, b);
            &&& concat_map(folders.take(n), fa) == concat_map(folders.take(n), fb)
            &&& concat_map(folders.skip(n + 1), fa) == concat_map(folders.skip(n + 1), fb)
        }),
{
    let folders = folders_of(hits, user);
    let fa = |folder: Seq<char>| folder_block(hits, user, folder, a);
    let fb = |folder: Seq<char>| folder_block(hits, user, folder, b);
    lemma_folders(hits, user);
    assert forall|i: int| 0 <= i < folders.len() && i != n implies fa(#[trigger] folders[i]) == fb(
        folders[i],
    ) by {
        assert(folders[i] != folders[n]);
        if folder_key_text(user, folders[i]) == folder_key_text(user, folders[n]) {
            lemma_folder_keys(user, folders[i], user, folders[n]);
        }
    }
    let before = folders.take(n);
    let behind = folders.skip(n + 1);
    assert forall|i: int| 0 <= i < before.len() implies fa(#[trigger] before[i]) == fb(
        before[i],
    ) by {
        assert(before[i] == folders[i]);
    }
    assert forall|i: int| 0 <= i < behind.len() implies fa(#[trigger] behind[i]) == fb(
        behind[i],
    ) by {
        assert(behind[i] == folders[n + 1 + i]);
    }
    lemma_concat_same(before, fa, fb);
    lemma_concat_same(behind, fa, fb);
}

/// A user's block round the row of a folder.
proof fn lemma_block_parted(
    hits: Seq<SoulseekHit>,
    user: Seq<char>,
    collapsed: Set<Seq<char>>,
    n: int,
) -> (parts: (Seq<RowView>, Seq<RowView>, Seq<RowView>))
    requires
        0 <= n < folders_of(hits, user).len(),
        !collapsed.contains(user_key_text(user)),
        !user.contains(':'),
    ensures
        block_parted(
            hits,
            user,
            collapsed,
            folder_row(hits, user, folders_of(hits, user)[n], collapsed),
            parts.0,
            parts.1,
            parts.2,
        ),
        parts.0.len() == 1 + concat_map(
            folders_of(hits, user).take(n),
            |folder: Seq<char>| folder_block(hits, user, folder, collapsed),
        ).len(),
{
    let folders = folders_of(hits, user);
    let folder = folders[n];
    let key = folder_key_text(user, folder);
    let open = collapsed.remove(key);
    let folded = collapsed.insert(key);
    lemma_user_keys(user, user, folder);
    lemma_other_folders_unchanged(hits, user, n, collapsed, open);
    lemma_other_folders_unchanged(hits, user, n, collapsed, folded);
    let g = |folder: Seq<char>| folder_block(hits, user, folder, collapsed);
    let go = |folder: Seq<char>| folder_block(hits, user, folder, open);
    let gf = |folder: Seq<char>| folder_block(hits, user, folder, folded);
    lemma_concat_split(folders, go, n);
    lemma_concat_split(folders, gf, n);
    let head = user_row(hits, user, collapsed);
    assert(user_row(hits, user, open) == head);
    assert(user_row(hits, user, folded) == head);
    let row = folder_row(hits, user, folder, collapsed);
    let before = seq![head] + concat_map(folders.take(n), g);
    let next = concat_map(folders.skip(n + 1), g);
    let under = go(folder).skip(1);
    assert(folder_row(hits, user, folder, open) == marked(row, false));
    assert(folder_row(hits, user, folder, folded) == marked(row, true));
    assert(go(folder)[0] == folder_row(hits, user, folder, open));
    assert(go(folder) =~= seq![marked(row, false)] + under);
    assert(gf(folder) =~= seq![marked(row, true)]);
    assert(user_block(hits, user, open) == seq![head] + concat_map(folders, go));
    assert(user_block(hits, user, folded) == seq![head] + concat_map(folders, gf));
    assert(user_block(hits, user, open) =~= before + seq![marked(row, false)] + under + next);
    assert(user_block(hits, user, folded) =~= before + seq![marked(row, true)] + next);
    assert forall|i: int| 0 <= i < under.len() implies belongs_below(
        row.kind,
        #[trigger] under[i],
    ) by {
        assert(under[i] == go(folder)[i + 1]);
    }
    lemma_first_folder(hits, user, folders.skip(n + 1), collapsed);
    (before, under, next)
}

/// The list round a folder's row.
proof fn lemma_folder_parted(
    hits: Seq<SoulseekHit>,
    collapsed: Set<Seq<char>>,
    m: int,
    n: int,
) -> (parts: (Seq<RowView>, Seq<RowView>, Seq<RowView>))
    requires
        0 <= m < users_of(hits).len(),
        0 <= n < folders_of(hits, users_of(hits)[m]).len(),
        !collapsed.contains(user_key_text(users_of(hits)[m])),
        no_colons(hits),
    ensures
        parted(
            hits,
            collapsed,
            folder_row(
                hits,
                users_of(hits)[m],
                folders_of(hits, users_of(hits)[m])[n],
                collapsed,
            ),
            parts.0,
            parts.1,
            parts.2,
        ),
        parts.0.len() == concat_map(
            users_of(hits).take(m),
            |user: Seq<char>| user_block(hits, user, collapsed),
        ).len() + 1 + concat_map(
            folders_of(hits, users_of(hits)[m]).take(n),
            |folder: Seq<char>| folder_block(hits, users_of(hits)[m], folder, collapsed),
        ).len(),
{
    let users = users_of(hits);
    let user = users[m];
    let row = folder_row(hits, user, folders_of(hits, user)[n], collapsed);
    let open = collapsed.remove(row.key);
    let folded = collapsed.insert(row.key);
    lemma_no_colon(hits, m);
    let (before, under, next) = lemma_block_parted(hits, user, collapsed, n);
    let f = |user: Seq<char>| user_block(hits, user, collapsed);
    let fo = |user: Seq<char>| user_block(hits, user, open);
    let ff = |user: Seq<char>| user_block(hits, user, folded);
    assert(row.key == folder_key_text(user, folders_of(hits, user)[n]));
    lemma_others_unchanged(hits, m, collapsed, open, row.key);
    lemma_others_unchanged(hits, m, collapsed, folded, row.key);
    lemma_concat_split(users, fo, m);
    lemma_concat_split(users, ff, m);
    let first = concat_map(users.take(m), f);
    let last = concat_map(users.skip(m + 1), f);
    let front = first + before;
    let back = next + last;
    assert(result_rows(hits, open) == first + fo(user) + last);
    assert(result_rows(hits, folded) == first + ff(user) + last);
    assert(first + (before + seq![marked(row, false)] + under + next) + last =~= front + seq![
        marked(row, false),
    ] + under + back);
    assert(first + (before + seq![marked(row, true)] + next) + last =~= front + seq![
        marked(row, true),
    ] + back);
    lemma_first_row(hits, users.skip(m + 1), collapsed);
    if next.len() > 0 {
        assert(back[0] == next[0]);
    } else if back.len() > 0 {
        assert(back[0] == last[0]);
    }
    (front, under, back)
}

/// The list round the row of any group.
proof fn lemma_parted(hits: Seq<SoulseekHit>, collapsed: Set<Seq<char>>, at: int) -> (parts: (
    Seq<RowView>,
    Seq<RowView>,
    Seq<RowView>,
))
    requires
        0 <= at < result_rows(hits, collapsed).len(),
        result_rows(hits, collapsed)[at].kind != SoulseekRowKind::File,
        no_colons(hits),
    ensures
        parted(
            hits,
            collapsed,
            result_rows(hits, collapsed)[at],
            parts.0,
            parts.1,
            parts.2,
        ),
        parts.0.len() == at,
{
    let users = users_of(hits);
    let f = |user: Seq<char>| user_block(hits, user, collapsed);
    assert(result_rows(hits, collapsed) == concat_map(users, f));
    let m = lemma_concat_locate(users, f, at);
    lemma_concat_split(users, f, m);
    let user = users[m];
    let start = concat_map(users.take(m), f).len();
    let row = result_rows(hits, collapsed)[at];
    assert(row == f(user)[at - start]);
    if at == start {
        lemma_user_parted(hits, collapsed, m)
    } else {
        let folders = folders_of(hits, user);
        let g = |folder: Seq<char>| folder_block(hits, user, folder, collapsed);
        assert(!collapsed.contains(user_key_text(user)));
        assert(f(user) == seq![user_row(hits, user, collapsed)] + concat_map(folders, g));
        let i = at - start - 1;
        let n = lemma_concat_locate(folders, g, i);
        lemma_concat_split(folders, g, n);
        let first = concat_map(folders.take(n), g).len();
        assert(row == g(folders[n])[i - first]);
        assert(i == first);
        lemma_folder_parted(hits, collapsed, m, n)
    }
}

/// Turning a row that cannot be folded changes nothing.
pub proof fn law_files_do_not_fold(ui: SoulseekView, expand: Option<bool>)
    requires
        0 <= ui.selected < ui.rows().len(),
        ui.rows()[ui.selected].kind == SoulseekRowKind::File,
    ensures
        ui.toggled(expand) == ui,
{
    assert(ui.settled() =~= ui);
}

/// Folding the group under the cursor takes the rows of the group out of the list, and only
/// these; unfolding brings them back. Doing either twice is doing it once, and turning the group
/// round twice changes nothing. The hits, the filter and the cursor stay as they are.
pub proof fn law_folding_hides_the_group(ui: SoulseekView)
    requires
        0 <= ui.selected < ui.rows().len(),
        ui.rows()[ui.selected].kind != SoulseekRowKind::File,
        no_colons(ui.hits),
    ensures
        ({
            let row = ui.rows()[ui.selected];
            let open = ui.toggled(Some(true));
            let folded = ui.toggled(Some(false));
            let round = ui.toggled(None);
            &&& open == SoulseekView { collapsed: ui.collapsed.remove(row.key), ..ui }
            &&& folded == SoulseekView { collapsed: ui.collapsed.insert(row.key), ..ui }
            &&& ui == if ui.collapsed.contains(row.key) {
                folded
            } else {
                open
            }
            &&& round == if ui.collapsed.contains(row.key) {
                open
            } else {
                folded
            }
            &&& open.rows()[ui.selected] == marked(row, false)
            &&& folded.rows() == open.rows().take(ui.selected) + seq![marked(row, true)]
                + open.rows().skip(group_end(open.rows(), row.kind, ui.selected + 1))
            &&& open.toggled(Some(true)) == open
            &&& folded.toggled(Some(false)) == folded
            &&& open.toggled(Some(false)) == folded
            &&& folded.toggled(Some(true)) == open
            &&& round.toggled(None) == ui
        }),
{
    let hits = ui.matching();
    let at = ui.selected;
    let row = ui.rows()[at];
    lemma_matching_has_no_colons(ui);
    let (front, under, back) = lemma_parted(hits, ui.collapsed, at);
    let open = SoulseekView { collapsed: ui.collapsed.remove(row.key), ..ui };
    let folded = SoulseekView { collapsed: ui.collapsed.insert(row.key), ..ui };
    assert(open.matching() == hits && folded.matching() == hits);
    assert(open.rows()[at] == marked(row, false));
    assert(folded.rows()[at] == marked(row, true));
    assert(open.settled() =~= open);
    assert(folded.settled() =~= folded);
    assert(ui.toggled(Some(true)) == open);
    assert(ui.toggled(Some(false)) == folded);
    if ui.collapsed.contains(row.key) {
        assert(folded.collapsed =~= ui.collapsed);
        assert(folded =~= ui);
    } else {
        assert(open.collapsed =~= ui.collapsed);
        assert(open =~= ui);
    }
    assert(open.collapsed.remove(row.key) =~= open.collapsed);
    assert(open.collapsed.insert(row.key) =~= folded.collapsed);
    assert(folded.collapsed.insert(row.key) =~= folded.collapsed);
    assert(folded.collapsed.remove(row.key) =~= open.collapsed);
    let end = at + 1 + under.len();
    assert forall|i: int| at + 1 <= i < end implies belongs_below(
        row.kind,
        #[trigger] open.rows()[i],
    ) by {
        assert(open.rows()[i] == under[i - at - 1]);
    }
    if end < open.rows().len() {
        assert(open.rows()[end] == back[0]);
    }
    lemma_group_end(open.rows(), row.kind, at + 1, end);
    assert(open.rows().take(at) =~= front);
    assert(open.rows().skip(end) =~= back);
}

proof fn lemma_matching_has_no_colons(ui: SoulseekView)
    requires
        no_colons(ui.hits),
    ensures
        no_colons(ui.matching()),
{
    let hits = ui.matching();
    let filter = ui.filter;
    lemma_filter_members(ui.hits, |hit: SoulseekHit| filter.accepts(hit));
    assert forall|i: int, k: int|
        0 <= i < hits.len() && 0 <= k < hits[i].username@.len() implies #[trigger] hits[i].username@[k]
        != ':' by {
        assert(hits.contains(hits[i]));
        assert(ui.hits.contains(hits[i]));
        let j = choose|j: int| 0 <= j < ui.hits.len() && ui.hits[j] == hits[i];
        assert(ui.hits[j].username@[k] != ':');
    }
}

/// Finds a hit in a folder of a user.
proof fn lemma_folder_has_a_hit(hits: Seq<SoulseekHit>, user: Seq<char>, n: int) -> (j: int)
    requires
        0 <= n < folders_of(hits, user).len(),
    ensures
        0 <= j < hits.len(),
        hits[j].username@ == user,
        folder_part(hits[j].name@) == folders_of(hits, user)[n],
{
    let own = of_user(hits, user);
    let parts = own.map_values(|hit: SoulseekHit| folder_part(hit.name@));
    let folder = folders_of(hits, user)[n];
    law_ordered_texts(parts);
    assert(ordered_texts(parts)[n] == folder);
    assert(ordered_texts(parts).contains(folder));
    assert(parts.contains(folder));
    let k = choose|k: int| 0 <= k < parts.len() && parts[k] == folder;
    let by_user = |hit: SoulseekHit| hit.username@ == user;
    lemma_of_user(hits, user, by_user);
    lemma_filter_members(hits, by_user);
    assert(hits.filter(by_user)[k] == own[k]);
    assert(hits.filter(by_user).contains(own[k]));
    assert(hits.contains(own[k]));
    choose|j: int| 0 <= j < hits.len() && hits[j] == own[k]
}

/// Every row stands for hits of the list: it has a hit of its user, of its folder where it is a
/// folder's, and its own where it is a file's.
proof fn lemma_row_origin(hits: Seq<SoulseekHit>, collapsed: Set<Seq<char>>, at: int)
    requires
        0 <= at < result_rows(hits, collapsed).len(),
    ensures
        ({
            let row = result_rows(hits, collapsed)[at];
            &&& exists|i: int| 0 <= i < hits.len() && #[trigger] hits[i].username@ == row.username
            &&& row.kind == SoulseekRowKind::File ==> row.hit is Some && hits.contains(row.hit->0)
            &&& row.kind != SoulseekRowKind::File ==> row.hit is None
            &&& row.kind == SoulseekRowKind::Folder ==> row.folder is Some && exists|i: int|
                0 <= i < hits.len() && #[trigger] hits[i].username@ == row.username && folder_part(
                    hits[i].name@,
                ) == row.folder->0
        }),
{
    let users = users_of(hits);
    let f = |user: Seq<char>| user_block(hits, user, collapsed);
    assert(result_rows(hits, collapsed) == concat_map(users, f));
    let m = lemma_concat_locate(users, f, at);
    lemma_concat_split(users, f, m);
    let user = users[m];
    let start = concat_map(users.take(m), f).len();
    let row = result_rows(hits, collapsed)[at];
    assert(row == f(user)[at - start]);
    lemma_users(hits);
    assert(users.contains(user));
    if at > start {
        let folders = folders_of(hits, user);
        let g = |folder: Seq<char>| folder_block(hits, user, folder, collapsed);
        assert(f(user) == seq![user_row(hits, user, collapsed)] + concat_map(folders, g));
        let i = at - start - 1;
        let n = lemma_concat_locate(folders, g, i);
        lemma_concat_split(folders, g, n);
        let first = concat_map(folders.take(n), g).len();
        let folder = folders[n];
        assert(row == g(folder)[i - first]);
        let own = in_folder(hits, user, folder);
        let keep = |hit: SoulseekHit| hit.username@ == user && folder_part(hit.name@) == folder;
        lemma_in_folder(hits, user, folder, keep);
        lemma_filter_members(hits, keep);
        if i > first {
            let hit = own[i - first - 1];
            assert(row == file_row(hit));
            assert(hits.filter(keep).contains(hit));
        } else {
            let j = lemma_folder_has_a_hit(hits, user, n);
            assert(hits[j].username@ == row.username);
        }
    }
}

/// Hiding with a scope in which no shown hit lies changes nothing. Else exactly what is in scope
/// goes, whether the filter shows it or not, and the rest keeps its order; none of the shown
/// hits in scope is left, the cursor stays in the list, and nothing else changes.
pub proof fn law_hiding_goes_by_the_shown_hits(ui: SoulseekView, scope: SoulseekScope)
    ensures
        ui.scope_hits(scope).len() == 0 ==> ui.hidden(scope) == ui,
        ui.scope_hits(scope).len() > 0 ==> {
            let hidden = ui.hidden(scope);
            &&& hidden == SoulseekView { hits: hidden.hits, selected: hidden.selected, ..ui }
            &&& hidden.hits == ui.hits.filter(|hit: SoulseekHit| !ui.in_scope(scope, hit))
            &&& forall|hit: SoulseekHit| #[trigger]
                ui.scope_hits(scope).contains(hit) ==> !hidden.hits.contains(hit)
            &&& 0 <= hidden.selected
            &&& hidden.selected == 0 || hidden.selected < hidden.rows().len()
        },
{
    let hits = ui.matching();
    let filter = ui.filter;
    let shown = |hit: SoulseekHit| filter.accepts(hit);
    let out = |hit: SoulseekHit| !ui.in_scope(scope, hit);
    let victims = ui.scope_hits(scope);
    lemma_filter_members(ui.hits, shown);
    lemma_filter_members(ui.hits, out);
    assert(ui.hidden(scope).hits == if ui.hides(scope) {
        ui.hits.filter(out)
    } else {
        ui.hits
    });
    if 0 <= ui.selected < ui.rows().len() {
        let row = ui.rows()[ui.selected];
        lemma_row_origin(hits, ui.collapsed, ui.selected);
        let near = choose|i: int|
            0 <= i < hits.len() && #[trigger] hits[i].username@ == row.username;
        assert(hits.contains(hits[near]));
        if scope == SoulseekScope::File {
            if row.hit is None {
                lemma_filter_all(ui.hits, out);
                assert(ui.hidden(scope) =~= ui);
            } else {
                assert(victims =~= seq![row.hit->0]);
                assert(ui.in_scope(scope, row.hit->0));
                assert forall|hit: SoulseekHit| #[trigger] victims.contains(hit) implies !ui.hidden(
                    scope,
                ).hits.contains(hit) by {
                    assert(hit == row.hit->0);
                }
            }
        } else {
            if ui.hides(scope) {
                let hit = if scope == SoulseekScope::User {
                    hits[near]
                } else if row.kind == SoulseekRowKind::File {
                    row.hit->0
                } else {
                    let i = choose|i: int|
                        0 <= i < hits.len() && #[trigger] hits[i].username@ == row.username
                            && folder_part(hits[i].name@) == row.folder->0;
                    hits[i]
                };
                assert(hits.contains(hit));
                assert(ui.in_scope(scope, hit));
                law_downloads_take_the_shown_hits_in_scope(ui, scope, hit);
                assert(victims.contains(hit));
            } else {
                assert forall|hit: SoulseekHit| !victims.contains(hit) by {
                    law_downloads_take_the_shown_hits_in_scope(ui, scope, hit);
                }
                if victims.len() > 0 {
                    assert(victims.contains(victims[0]));
                }
            }
            assert forall|hit: SoulseekHit| #[trigger] victims.contains(hit) implies !ui.hidden(
                scope,
            ).hits.contains(hit) by {
                law_downloads_take_the_shown_hits_in_scope(ui, scope, hit);
            }
        }
    } else {
        if victims.len() > 0 {
            assert(victims.contains(victims[0]));
            if scope != SoulseekScope::File {
                law_downloads_take_the_shown_hits_in_scope(ui, scope, victims[0]);
            }
        }
    }
}

} // verus!
