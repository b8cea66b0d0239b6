use vstd::prelude::*;

use crate::actions::{all_actions, lemma_all_actions_indexed, Action, ACTION_COUNT};

verus! {

/// The key an action is bound to: a character, or none.
#[derive(Clone, Copy, Debug, PartialEq, Eq, Hash, Structural)]
pub enum Keybind {
    Char(char),
    Unbound,
}

/// The key each action starts out bound to.
pub open spec fn default_keybind(action: Action) -> Keybind {
    match action {
        Action::Run => Keybind::Char('r'),
        Action::Build => Keybind::Char('b'),
        Action::Lint => Keybind::Char('l'),
        Action::Publish => Keybind::Char('P'),
        Action::Push => Keybind::Char('p'),
        Action::Install => Keybind::Char('i'),
        Action::Clean => Keybind::Char('q'),
        Action::AddPackage => Keybind::Char('a'),
        Action::RemovePackage => Keybind::Char('R'),
        Action::Commit => Keybind::Char('m'),
        _ => Keybind::Unbound,
    }
}

/// `m`, with every action that it does not bind bound to its default key.
pub open spec fn with_defaults(m: Map<Action, Keybind>) -> Map<Action, Keybind> {
    Map::new(|a: Action| true, |a: Action| if m.contains_key(a) { m[a] } else { default_keybind(a) })
}

/// The bindings that `entries` give, a later entry for an action replacing
/// an earlier one.
pub open spec fn bindings_of(entries: Seq<(Action, Keybind)>) -> Map<Action, Keybind>
    decreases entries.len(),
{
    if entries.len() == 0 {
        Map::empty()
    } else {
        bindings_of(entries.drop_last()).insert(entries.last().0, entries.last().1)
    }
}

/// The character that reaches `action` under bindings `m`: its fixed key
/// where the user cannot change it, else the character it is bound to.
pub open spec fn key_char(m: Map<Action, Keybind>, action: Action) -> Option<char> {
    if action.spec_is_editable() {
        if m.contains_key(action) && m[action] is Char {
            Some(m[action]->Char_0)
        } else {
            None
        }
    } else {
        action.spec_fixed_char()
    }
}

/// Whether two different actions are reached by the character `c`.
pub open spec fn is_conflict(m: Map<Action, Keybind>, c: char) -> bool {
    exists|a1: Action, a2: Action|
        a1 != a2 && #[trigger] key_char(m, a1) == Some(c) && #[trigger] key_char(m, a2) == Some(c)
}

/// `m` after every editable action bound to one of `keys` is unbound.
pub open spec fn unbound(m: Map<Action, Keybind>, keys: Seq<char>) -> Map<Action, Keybind> {
    Map::new(
        |a: Action| m.contains_key(a),
        |a: Action|
            if a.spec_is_editable() && m[a] is Char && keys.contains(m[a]->Char_0) {
                Keybind::Unbound
            } else {
                m[a]
            },
    )
}

/// The key bindings of the actions.
pub struct Config {
    keybindings: Vec<Option<Keybind>>,
}

impl View for Config {
    type V = Map<Action, Keybind>;

    closed spec fn view(&self) -> Map<Action, Keybind> {
        Map::new(
            |a: Action| self.keybindings@[a.spec_index() as int] is Some,
            |a: Action| self.keybindings@[a.spec_index() as int]->0,
        )
    }
}

impl Default for Config {
    /// Every action bound to its default key.
    fn default() -> (r: Config)
        ensures
            r.wf(),
            r@ == with_defaults(Map::empty()),
    {
        let mut c = Config::unbound_all();
        c.ensure_all_actions_present();
        proof {
            assert(c@ =~= with_defaults(Map::empty()));
        }
        c
    }
}

impl Config {
    pub closed spec fn wf(&self) -> bool {
        self.keybindings@.len() == ACTION_COUNT
    }

    fn unbound_all() -> (r: Config)
        ensures
            r.wf(),
            r@ == Map::<Action, Keybind>::empty(),
    {
        let mut keybindings: Vec<Option<Keybind>> = Vec::new();
        let mut i: usize = 0;
        while i < ACTION_COUNT
            invariant
                i <= ACTION_COUNT,
                keybindings@.len() == i,
                forall|k: int| 0 <= k < i ==> keybindings@[k] is None,
            decreases ACTION_COUNT - i,
        {
            keybindings.push(None);
            i += 1;
        }
        let r = Config { keybindings };
        proof {
            assert(r@ =~= Map::<Action, Keybind>::empty());
        }
        r
    }

    /// The bindings that `entries` give, and the default key for every
    /// action they leave out.
    pub fn from_bindings(entries: &Vec<(Action, Keybind)>) -> (r: Config)
        ensures
            r.wf(),
            r@ == with_defaults(bindings_of(entries@)),
    {
        let mut c = Config::unbound_all();
        let mut i: usize = 0;
        while i < entries.len()
            invariant
                c.wf(),
                i <= entries@.len(),
                c@ == bindings_of(entries@.take(i as int)),
            decreases entries@.len() - i,
        {
            let (action, keybind) = entries[i];
            c.set_keybind(action, keybind);
            proof {
                assert(entries@.take(i as int + 1).drop_last() =~= entries@.take(i as int));
            }
            i += 1;
        }
        proof {
            assert(entries@.take(i as int) =~= entries@);
        }
        c.ensure_all_actions_present();
        c
    }

    /// The key `action` starts out bound to.
    pub fn default_keybind_for_action(action: Action) -> (r: Keybind)
        ensures
            r == default_keybind(action),
    {
        match action {
            Action::Run => Keybind::Char('r'),
            Action::Build => Keybind::Char('b'),
            Action::Lint => Keybind::Char('l'),
            Action::Publish => Keybind::Char('P'),
            Action::Push => Keybind::Char('p'),
            Action::Install => Keybind::Char('i'),
            Action::Clean => Keybind::Char('q'),
            Action::AddPackage => Keybind::Char('a'),
            Action::RemovePackage => Keybind::Char('R'),
            Action::Commit => Keybind::Char('m'),
            _ => Keybind::Unbound,
        }
    }

    /// Binds every action that has no binding to its default key.
    pub fn ensure_all_actions_present(&mut self)
        requires
            old(self).wf(),
        ensures
            final(self).wf(),
            final(self)@ == with_defaults(old(self)@),
    {
        let actions = Action::all();
        let mut i: usize = 0;
        proof {
            lemma_all_actions_indexed();
        }
        while i < actions.len()
            invariant
                self.wf(),
                actions@ == all_actions(),
                i <= actions@.len(),
                forall|k: int|
                    0 <= k < ACTION_COUNT ==> #[trigger] self.keybindings@[k] == if k < i
                        && old(self).keybindings@[k] is None {
                        Some(default_keybind(all_actions()[k]))
                    } else {
                        old(self).keybindings@[k]
                    },
            decreases actions@.len() - i,
        {
            let action = actions[i];
            let k = action.index();
            if self.keybindings[k].is_none() {
                self.keybindings.set(k, Some(Config::default_keybind_for_action(action)));
            }
            i += 1;
        }
        proof {
            assert(self@ =~= with_defaults(old(self)@));
        }
    }

    /// The key `action` is bound to, if any.
    pub fn get_keybind(&self, action: Action) -> (r: Option<&Keybind>)
        requires
            self.wf(),
        ensures
            match r {
                Some(k) => self@.contains_key(action) && self@[action] == *k,
                None => !self@.contains_key(action),
            },
    {
        match &self.keybindings[action.index()] {
            Some(k) => Some(k),
            None => None,
        }
    }

    /// Binds `action` to `keybind`.
    pub fn set_keybind(&mut self, action: Action, keybind: Keybind)
        requires
            old(self).wf(),
        ensures
            final(self).wf(),
            final(self)@ == old(self)@.insert(action, keybind),
    {
        self.keybindings.set(action.index(), Some(keybind));
        proof {
            assert(self@ =~= old(self)@.insert(action, keybind));
        }
    }

    /// The action bound to character `c`; of several, the first in
    /// declaration order.
    pub fn get_action_for_key(&self, c: char) -> (r: Option<Action>)
        requires
            self.wf(),
        ensures
            match r {
                Some(a) => self@.contains_key(a) && self@[a] == Keybind::Char(c) && forall|b: Action|
                    #![trigger self@[b]]
                    b.spec_index() < a.spec_index() ==> !(self@.contains_key(b) && self@[b] == Keybind::Char(c)),
                None => forall|b: Action| #![trigger self@[b]] !(self@.contains_key(b) && self@[b] == Keybind::Char(c)),
            },
    {
        let actions = Action::all();
        proof {
            lemma_all_actions_indexed();
        }
        let mut i: usize = 0;
        while i < actions.len()
            invariant
                self.wf(),
                actions@ == all_actions(),
                i <= actions@.len(),
                forall|b: Action|
                    #![trigger self@[b]]
                    b.spec_index() < i ==> !(self@.contains_key(b) && self@[b] == Keybind::Char(c)),
            decreases actions@.len() - i,
        {
            let action = actions[i];
            match self.keybindings[action.index()] {
                Some(Keybind::Char(k)) => {
                    if k == c {
                        return Some(action);
                    }
                },
                _ => {},
            }
            i += 1;
        }
        None
    }

    /// The character that reaches `action`; see `key_char`.
    fn key_char_of(&self, action: Action) -> (r: Option<char>)
        requires
            self.wf(),
        ensures
            r == key_char(self@, action),
    {
        if action.is_editable() {
            match self.keybindings[action.index()] {
                Some(Keybind::Char(c)) => Some(c),
                _ => None,
            }
        } else {
            action.fixed_char()
        }
    }

    /// The characters that reach two or more actions, each once.
    pub fn find_conflicts(&self) -> (r: Vec<char>)
        requires
            self.wf(),
        ensures
            forall|c: char| r@.contains(c) <==> is_conflict(self@, c),
            r@.no_duplicates(),
    {
        let actions = Action::all();
        proof {
            lemma_all_actions_indexed();
        }
        let mut r: Vec<char> = Vec::new();
        let mut i: usize = 0;
        while i < actions.len()
            invariant
                self.wf(),
                actions@ == all_actions(),
                i <= actions@.len(),
                r@.no_duplicates(),
                forall|c: char| r@.contains(c) ==> is_conflict(self@, c),
                forall|a: Action, c: char|
                    a.spec_index() < i && #[trigger] key_char(self@, a) == Some(c) && is_conflict(self@, c)
                        ==> #[trigger] r@.contains(c),
            decreases actions@.len() - i,
        {
            let a = actions[i];
            let ghost r_old = r@;
            let kc = self.key_char_of(a);
            match kc {
                Some(c) => {
                    let mut j: usize = 0;
                    let mut shared = false;
                    while j < actions.len()
                        invariant
                            self.wf(),
                            actions@ == all_actions(),
                            i < actions@.len(),
                            a == actions@[i as int],
                            key_char(self@, a) == Some(c),
                            j <= actions@.len(),
                            shared ==> is_conflict(self@, c),
                            !shared ==> forall|b: Action|
                                b.spec_index() < j && b != a ==> #[trigger] key_char(self@, b) != Some(c),
                        decreases actions@.len() - j,
                    {
                        let b = actions[j];
                        if j != i {
                            if self.key_char_of(b) == Some(c) {
                                shared = true;
                            }
                        }
                        j += 1;
                    }
                    if shared && !contains_char(&r, c) {
                        r.push(c);
                        proof {
                            assert(r@[r@.len() - 1] == c);
                        }
                    }
                    proof {
                        if !shared {
                            assert(!is_conflict(self@, c)) by {
                                if is_conflict(self@, c) {
                                    let (a1, a2) = choose|a1: Action, a2: Action|
                                        a1 != a2 && #[trigger] key_char(self@, a1) == Some(c) && #[trigger] key_char(self@, a2) == Some(c);
                                    assert(a1.spec_index() < ACTION_COUNT);
                                    assert(a2.spec_index() < ACTION_COUNT);
                                }
                            }
                        }
                    }
                },
                None => {},
            }
            proof {
                assert forall|x: char| r_old.contains(x) implies r@.contains(x) by {
                    let k = choose|k: int| 0 <= k < r_old.len() && r_old[k] == x;
                    assert(r@[k] == x);
                }
                assert(a.spec_index() == i);
                if let Some(c) = kc {
                    if is_conflict(self@, c) {
                        assert(r@.contains(c));
                    }
                }
                assert forall|b: Action, x: char|
                    b.spec_index() < i + 1 && #[trigger] key_char(self@, b) == Some(x) && is_conflict(self@, x)
                        implies #[trigger] r@.contains(x) by {
                    if b.spec_index() == i {
                        assert(all_actions()[b.spec_index() as int] == b);
                        assert(kc == Some(x));
                    } else {
                        assert(r_old.contains(x));
                    }
                }
            }
            i += 1;
        }
        proof {
            assert forall|c: char| is_conflict(self@, c) implies r@.contains(c) by {
                let (a1, a2) = choose|a1: Action, a2: Action|
                    a1 != a2 && #[trigger] key_char(self@, a1) == Some(c) && #[trigger] key_char(self@, a2) == Some(c);
                assert(a1.spec_index() < ACTION_COUNT);
            }
        }
        r
    }

    /// Unbinds every editable action bound to one of `keys`; the actions
    /// whose key is fixed keep theirs.
    pub fn unbind_keys(&mut self, keys: &Vec<char>)
        requires
            old(self).wf(),
        ensures
            final(self).wf(),
            final(self)@ == unbound(old(self)@, keys@),
    {
        let actions = Action::all();
        proof {
            lemma_all_actions_indexed();
        }
        let mut i: usize = 0;
        while i < actions.len()
            invariant
                self.wf(),
                actions@ == all_actions(),
                i <= actions@.len(),
                forall|k: int|
                    0 <= k < ACTION_COUNT ==> #[trigger] self.keybindings@[k] == if k < i
                        && all_actions()[k].spec_is_editable() && old(self).keybindings@[k] is Some
                        && old(self).keybindings@[k]->0 is Char && keys@.contains(
                        old(self).keybindings@[k]->0->Char_0,
                    ) {
                        Some(Keybind::Unbound)
                    } else {
                        old(self).keybindings@[k]
                    },
            decreases actions@.len() - i,
        {
            let a = actions[i];
            let k = a.index();
            if a.is_editable() {
                match self.keybindings[k] {
                    Some(Keybind::Char(c)) => {
                        if contains_char(keys, c) {
                            self.keybindings.set(k, Some(Keybind::Unbound));
                        }
                    },
                    _ => {},
                }
            }
            i += 1;
        }
        proof {
            assert(self@ =~= unbound(old(self)@, keys@));
        }
    }
}

/// Whether `c` occurs in `v`.
pub fn contains_char(v: &Vec<char>, c: char) -> (r: bool)
    ensures
        r == v@.contains(c),
{
    let mut i: usize = 0;
    while i < v.len()
        invariant
            i <= v@.len(),
            forall|k: int| 0 <= k < i ==> v@[k] != c,
        decreases v@.len() - i,
    {
        if v[i] == c {
            return true;
        }
        i += 1;
    }
    false
}

} // verus!
