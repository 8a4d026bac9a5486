//! A player of one room.

use crate::types::{PlayerId, Role};
use vstd::prelude::*;
use vstd::string::StringExecFns;

verus! {

/// A player: who they are, what they were dealt, and whether they are
/// still in the game.
#[derive(Debug, PartialEq)]
pub struct Player {
    id: PlayerId,
    name: String,
    /// `None` until roles are dealt.
    role: Option<Role>,
    /// `None` until words are dealt.
    theme: Option<String>,
    /// Whether the player has not been voted out.
    active: bool,
}

/// What a player record holds, with texts in place of strings.
pub struct PlayerView {
    pub id: Seq<char>,
    pub name: Seq<char>,
    pub role: Option<Role>,
    pub theme: Option<Seq<char>>,
    pub active: bool,
}

impl View for Player {
    type V = PlayerView;

    closed spec fn view(&self) -> PlayerView {
        PlayerView {
            id: self.id@,
            name: self.name@,
            role: self.role,
            theme: match self.theme {
                Some(t) => Some(t@),
                None => None,
            },
            active: self.active,
        }
    }
}

impl Clone for Player {
    fn clone(&self) -> (p: Player)
        ensures
            p == *self,
    {
        Player {
            id: self.id.clone(),
            name: self.name.clone(),
            role: self.role,
            theme: match &self.theme {
                Some(t) => Some(t.clone()),
                None => None,
            },
            active: self.active,
        }
    }
}

impl Player {
    /// A new player: active, with neither role nor word.
    pub fn new(id: PlayerId, name: String) -> (p: Self)
        ensures
            p@ == (PlayerView { id: id@, name: name@, role: None, theme: None, active: true }),
    {
        Player { id, name, role: None, theme: None, active: true }
    }

    pub fn id(&self) -> (id: &PlayerId)
        ensures
            id@ == self@.id,
    {
        &self.id
    }

    pub fn name(&self) -> (name: &str)
        ensures
            name@ == self@.name,
    {
        self.name.as_str()
    }

    pub fn role(&self) -> (role: Option<Role>)
        ensures
            role == self@.role,
    {
        self.role
    }

    pub fn theme(&self) -> (theme: Option<&str>)
        ensures
            theme is Some == self@.theme is Some,
            theme is Some ==> theme->Some_0@ == self@.theme->Some_0,
    {
        match &self.theme {
            Some(t) => Some(t.as_str()),
            None => None,
        }
    }

    pub fn is_active(&self) -> (b: bool)
        ensures
            b == self@.active,
    {
        self.active
    }

    pub fn is_wolf(&self) -> (b: bool)
        ensures
            b == (self@.role == Some(Role::Wolf)),
    {
        match self.role {
            Some(Role::Wolf) => true,
            _ => false,
        }
    }

    pub fn is_citizen(&self) -> (b: bool)
        ensures
            b == (self@.role == Some(Role::Citizen)),
    {
        match self.role {
            Some(Role::Citizen) => true,
            _ => false,
        }
    }

    /// Deals the player a role; an earlier role is replaced.
    pub fn assign_role(&mut self, role: Role)
        ensures
            final(self)@ == (PlayerView { role: Some(role), ..old(self)@ }),
    {
        self.role = Some(role);
    }

    /// Deals the player a word; an earlier word is replaced.
    pub fn assign_theme(&mut self, theme: String)
        ensures
            final(self)@ == (PlayerView { theme: Some(theme@), ..old(self)@ }),
    {
        self.theme = Some(theme);
    }

    /// Votes the player out.
    pub fn eliminate(&mut self)
        ensures
            final(self)@ == (PlayerView { active: false, ..old(self)@ }),
    {
        self.active = false;
    }

    /// Whether the player holds both a role and a word.
    pub fn is_ready_to_play(&self) -> (b: bool)
        ensures
            b == (self@.role is Some && self@.theme is Some),
    {
        self.role.is_some() && self.theme.is_some()
    }

    /// The player as shown in listings: the name and whether they are
    /// still in the game.
    pub fn describe(&self) -> (s: String)
        ensures
            s@ == self@.name + (if self@.active {
                " (active)"@
            } else {
                " (eliminated)"@
            }),
    {
        let mut s = self.name.clone();
        if self.active {
            s.append(" (active)");
        } else {
            s.append(" (eliminated)");
        }
        s
    }
}

} // verus!
