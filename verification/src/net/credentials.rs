//! What is remembered of a server.

use vstd::prelude::*;
use vstd::string::*;

use crate::path::{join, joined};
use crate::soulseek::opt_view;
use crate::text::same_text;

verus! {

/// The server that was last connected to, and what it takes to be let in again.
#[derive(Debug, PartialEq, Eq)]
pub struct SavedRemote {
    pub address: String,
    pub fingerprint: String,
    pub token: String,
    pub server_name: String,
}

/// What a saved server says.
pub struct SavedRemoteView {
    pub address: Seq<char>,
    pub fingerprint: Seq<char>,
    pub token: Seq<char>,
    pub server_name: Seq<char>,
}

impl View for SavedRemote {
    type V = SavedRemoteView;

    open spec fn view(&self) -> SavedRemoteView {
        SavedRemoteView {
            address: self.address@,
            fingerprint: self.fingerprint@,
            token: self.token@,
            server_name: self.server_name@,
        }
    }
}

impl Default for SavedRemote {
    fn default() -> (saved: SavedRemote)
        ensures
            saved@ == SavedRemoteView::empty(),
    {
        SavedRemote {
            address: String::new(),
            fingerprint: String::new(),
            token: String::new(),
            server_name: String::new(),
        }
    }
}

impl SavedRemoteView {
    pub open spec fn empty() -> SavedRemoteView {
        SavedRemoteView {
            address: Seq::empty(),
            fingerprint: Seq::empty(),
            token: Seq::empty(),
            server_name: Seq::empty(),
        }
    }
}

/// The file that the server is remembered in.
pub fn remote_file(data_dir: &str) -> (path: String)
    ensures
        path@ == joined(data_dir@, "remote.json"@),
{
    join(data_dir, "remote.json")
}

pub open spec fn saved_view(saved: Option<SavedRemote>) -> Option<SavedRemoteView> {
    match saved {
        Some(saved) => Some(saved@),
        None => None,
    }
}

/// What is remembered of the server at an address.
pub open spec fn known_at(saved: Option<SavedRemoteView>, address: Seq<char>) -> Option<
    SavedRemoteView,
> {
    match saved {
        Some(saved) => if saved.address == address {
            Some(saved)
        } else {
            None
        },
        None => None,
    }
}

/// What is remembered once an address has been dialled.
pub open spec fn dialled_at(saved: Option<SavedRemoteView>, address: Seq<char>) -> SavedRemoteView {
    SavedRemoteView {
        address,
        ..match saved {
            Some(saved) => saved,
            None => SavedRemoteView::empty(),
        }
    }
}

/// What is remembered, where it is of the server at this address.
pub fn load_for_address(saved: Option<SavedRemote>, address: &str) -> (known: Option<SavedRemote>)
    ensures
        saved_view(known) == known_at(saved_view(saved), address@),
{
    match saved {
        Some(saved) => if same_text(&saved.address, address) {
            Some(saved)
        } else {
            None
        },
        None => None,
    }
}

/// What is remembered once a server has let this player in.
pub fn save_credentials(
    address: &str,
    fingerprint: &str,
    token: &str,
    server_name: &str,
) -> (saved: SavedRemote)
    ensures
        saved@ == (SavedRemoteView {
            address: address@,
            fingerprint: fingerprint@,
            token: token@,
            server_name: server_name@,
        }),
{
    SavedRemote {
        address: address.to_owned(),
        fingerprint: fingerprint.to_owned(),
        token: token.to_owned(),
        server_name: server_name.to_owned(),
    }
}

/// What is remembered once an address has been dialled: the address, and the rest as
/// it was.
pub fn save_address(saved: Option<SavedRemote>, address: &str) -> (changed: SavedRemote)
    ensures
        changed@ == dialled_at(saved_view(saved), address@),
{
    let mut changed = match saved {
        Some(saved) => saved,
        None => SavedRemote {
            address: String::new(),
            fingerprint: String::new(),
            token: String::new(),
            server_name: String::new(),
        },
    };
    changed.address = address.to_owned();
    changed
}

/// The token that is sent along: the one that is remembered, where there is one.
pub open spec fn token_in(saved: Option<SavedRemoteView>) -> Option<Seq<char>> {
    match saved {
        Some(saved) => if saved.token.len() > 0 {
            Some(saved.token)
        } else {
            None
        },
        None => None,
    }
}

pub fn saved_token(saved: &Option<SavedRemote>) -> (token: Option<String>)
    ensures
        opt_view(token) == token_in(saved_view(*saved)),
{
    match saved {
        Some(saved) => if saved.token.as_str().is_empty() {
            None
        } else {
            Some(saved.token.clone())
        },
        None => None,
    }
}

/// The token to remember after a look at a server: the one that was used, or else the one that
/// was remembered.
pub fn token_to_keep(used: Option<String>, saved: &Option<SavedRemote>) -> (token: Option<String>)
    ensures
        opt_view(token) == match opt_view(used) {
            Some(used) => if used.len() > 0 {
                Some(used)
            } else {
                token_in(saved_view(*saved))
            },
            None => token_in(saved_view(*saved)),
        },
{
    if let Some(used) = used {
        if !used.as_str().is_empty() {
            return Some(used);
        }
    }
    saved_token(saved)
}

/// What was remembered of a server is found under its address, and under no other.
pub proof fn law_credentials_are_found_again(saved: SavedRemoteView, other: Seq<char>)
    requires
        other != saved.address,
    ensures
        known_at(Some(saved), saved.address) == Some(saved),
        known_at(Some(saved), other) is None,
{
}

/// Dialling the server that is remembered forgets nothing of it.
pub proof fn law_redialling_forgets_nothing(saved: SavedRemoteView)
    ensures
        dialled_at(Some(saved), saved.address) == saved,
        known_at(Some(dialled_at(Some(saved), saved.address)), saved.address) == Some(saved),
{
}

} // verus!
