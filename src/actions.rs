use vstd::prelude::*;

verus! {

/// Number of actions.
pub const ACTION_COUNT: usize = 20;

/// What the user can ask the assistant to do.
#[derive(Clone, Copy, Debug, PartialEq, Eq, Hash, Structural)]
pub enum Action {
    Quit,
    ToggleHelp,
    ScrollUp,
    ScrollDown,
    EnterCommandMode,
    ClearShell,
    Lint,
    Run,
    Build,
    Publish,
    Push,
    Install,
    Clean,
    AddPackage,
    RemovePackage,
    Commit,
    LlmPush,
    ShowDiff,
    GenerateMessage,
    VersionUpdate,
}

/// Every action, in declaration order.
pub open spec fn all_actions() -> Seq<Action> {
    seq![
        Action::Quit,
        Action::ToggleHelp,
        Action::ScrollUp,
        Action::ScrollDown,
        Action::EnterCommandMode,
        Action::ClearShell,
        Action::Lint,
        Action::Run,
        Action::Build,
        Action::Publish,
        Action::Push,
        Action::Install,
        Action::Clean,
        Action::AddPackage,
        Action::RemovePackage,
        Action::Commit,
        Action::LlmPush,
        Action::ShowDiff,
        Action::GenerateMessage,
        Action::VersionUpdate,
    ]
}

impl Action {
    /// The position of the action in declaration order.
    pub open spec fn spec_index(self) -> nat {
        match self {
            Action::Quit => 0,
            Action::ToggleHelp => 1,
            Action::ScrollUp => 2,
            Action::ScrollDown => 3,
            Action::EnterCommandMode => 4,
            Action::ClearShell => 5,
            Action::Lint => 6,
            Action::Run => 7,
            Action::Build => 8,
            Action::Publish => 9,
            Action::Push => 10,
            Action::Install => 11,
            Action::Clean => 12,
            Action::AddPackage => 13,
            Action::RemovePackage => 14,
            Action::Commit => 15,
            Action::LlmPush => 16,
            Action::ShowDiff => 17,
            Action::GenerateMessage => 18,
            Action::VersionUpdate => 19,
        }
    }

    /// The actions whose key the user cannot change.
    pub open spec fn spec_is_editable(self) -> bool {
        !(self is Quit || self is ToggleHelp || self is ScrollUp || self is ScrollDown
            || self is EnterCommandMode || self is ClearShell)
    }

    pub open spec fn spec_description(self) -> &'static str {
        match self {
            Action::Quit => "Quit the application",
            Action::ToggleHelp => "Toggle this help/settings popup",
            Action::ScrollUp => "Scroll shell output up",
            Action::ScrollDown => "Scroll shell output down",
            Action::EnterCommandMode => "Enter Command Mode",
            Action::ClearShell => "Clear the shell screen",
            Action::Lint => "Lint & Format project",
            Action::Run => "Run dev build",
            Action::Build => "Build project",
            Action::Publish => "Publish package",
            Action::Push => "Push changes to git remote",
            Action::Install => "Install binary",
            Action::Clean => "Clean build artifacts",
            Action::AddPackage => "Add a new dependency",
            Action::RemovePackage => "Remove a dependency",
            Action::Commit => "Commit all staged changes",
            Action::LlmPush => "Run the full AI commit and push process",
            Action::ShowDiff => "Show the git diff as JSON",
            Action::GenerateMessage => "Generate commit messages with AI",
            Action::VersionUpdate => "Increment patch version",
        }
    }

    pub open spec fn spec_command_str(self) -> &'static str {
        match self {
            Action::Quit => "/quit",
            Action::ToggleHelp => "/help",
            Action::ScrollUp => "/up",
            Action::ScrollDown => "/down",
            Action::EnterCommandMode => "/",
            Action::ClearShell => "/c",
            Action::Lint => "/lint",
            Action::Run => "/run",
            Action::Build => "/build",
            Action::Publish => "/publish",
            Action::Push => "/push",
            Action::Install => "/install",
            Action::Clean => "/clean",
            Action::AddPackage => "/add",
            Action::RemovePackage => "/remove",
            Action::Commit => "/commit",
            Action::LlmPush => "/llm",
            Action::ShowDiff => "/diff",
            Action::GenerateMessage => "/message",
            Action::VersionUpdate => "/ver",
        }
    }

    pub open spec fn spec_fixed_keybinding_display(self) -> Option<&'static str> {
        match self {
            Action::Quit => Some("[Esc]"),
            Action::ToggleHelp => Some("[h]"),
            Action::ScrollUp => Some("[Up]"),
            Action::ScrollDown => Some("[Down]"),
            Action::EnterCommandMode => Some("[/]"),
            Action::ClearShell => Some("[c]"),
            _ => None,
        }
    }

    /// The character key of an action whose key is fixed, where it has one;
    /// the others are reached by keys that type no character.
    pub open spec fn spec_fixed_char(self) -> Option<char> {
        match self {
            Action::ToggleHelp => Some('h'),
            Action::EnterCommandMode => Some('/'),
            Action::ClearShell => Some('c'),
            _ => None,
        }
    }

    /// What the help screen says the action does.
    pub fn description(&self) -> (r: &'static str)
        ensures
            r == self.spec_description(),
    {
        match self {
            Action::Quit => "Quit the application",
            Action::ToggleHelp => "Toggle this help/settings popup",
            Action::ScrollUp => "Scroll shell output up",
            Action::ScrollDown => "Scroll shell output down",
            Action::EnterCommandMode => "Enter Command Mode",
            Action::ClearShell => "Clear the shell screen",
            Action::Lint => "Lint & Format project",
            Action::Run => "Run dev build",
            Action::Build => "Build project",
            Action::Publish => "Publish package",
            Action::Push => "Push changes to git remote",
            Action::Install => "Install binary",
            Action::Clean => "Clean build artifacts",
            Action::AddPackage => "Add a new dependency",
            Action::RemovePackage => "Remove a dependency",
            Action::Commit => "Commit all staged changes",
            Action::LlmPush => "Run the full AI commit and push process",
            Action::ShowDiff => "Show the git diff as JSON",
            Action::GenerateMessage => "Generate commit messages with AI",
            Action::VersionUpdate => "Increment patch version",
        }
    }

    /// The slash command that runs the action from command mode.
    pub fn command_str(&self) -> (r: &'static str)
        ensures
            r == self.spec_command_str(),
    {
        match self {
            Action::Quit => "/quit",
            Action::ToggleHelp => "/help",
            Action::ScrollUp => "/up",
            Action::ScrollDown => "/down",
            Action::EnterCommandMode => "/",
            Action::ClearShell => "/c",
            Action::Lint => "/lint",
            Action::Run => "/run",
            Action::Build => "/build",
            Action::Publish => "/publish",
            Action::Push => "/push",
            Action::Install => "/install",
            Action::Clean => "/clean",
            Action::AddPackage => "/add",
            Action::RemovePackage => "/remove",
            Action::Commit => "/commit",
            Action::LlmPush => "/llm",
            Action::ShowDiff => "/diff",
            Action::GenerateMessage => "/message",
            Action::VersionUpdate => "/ver",
        }
    }

    /// Whether the user may bind the action to a key of their choice.
    pub fn is_editable(&self) -> (r: bool)
        ensures
            r == self.spec_is_editable(),
    {
        !matches!(
            self,
            Action::Quit | Action::ToggleHelp | Action::ScrollUp | Action::ScrollDown
                | Action::EnterCommandMode | Action::ClearShell
        )
    }

    /// The key label of an action whose key is fixed.
    pub fn fixed_keybinding_display(&self) -> (r: Option<&'static str>)
        ensures
            r == self.spec_fixed_keybinding_display(),
    {
        match self {
            Action::Quit => Some("[Esc]"),
            Action::ToggleHelp => Some("[h]"),
            Action::ScrollUp => Some("[Up]"),
            Action::ScrollDown => Some("[Down]"),
            Action::EnterCommandMode => Some("[/]"),
            Action::ClearShell => Some("[c]"),
            _ => None,
        }
    }

    /// The character key of an action whose key is fixed; see
    /// `spec_fixed_char`.
    pub fn fixed_char(&self) -> (r: Option<char>)
        ensures
            r == self.spec_fixed_char(),
    {
        match self {
            Action::ToggleHelp => Some('h'),
            Action::EnterCommandMode => Some('/'),
            Action::ClearShell => Some('c'),
            _ => None,
        }
    }

    /// The position of the action in declaration order.
    pub fn index(&self) -> (r: usize)
        ensures
            r == self.spec_index(),
            r < ACTION_COUNT,
    {
        match self {
            Action::Quit => 0,
            Action::ToggleHelp => 1,
            Action::ScrollUp => 2,
            Action::ScrollDown => 3,
            Action::EnterCommandMode => 4,
            Action::ClearShell => 5,
            Action::Lint => 6,
            Action::Run => 7,
            Action::Build => 8,
            Action::Publish => 9,
            Action::Push => 10,
            Action::Install => 11,
            Action::Clean => 12,
            Action::AddPackage => 13,
            Action::RemovePackage => 14,
            Action::Commit => 15,
            Action::LlmPush => 16,
            Action::ShowDiff => 17,
            Action::GenerateMessage => 18,
            Action::VersionUpdate => 19,
        }
    }

    /// Every action, in declaration order.
    pub fn all() -> (r: Vec<Action>)
        ensures
            r@ == all_actions(),
    {
        let r = vec![
            Action::Quit,
            Action::ToggleHelp,
            Action::ScrollUp,
            Action::ScrollDown,
            Action::EnterCommandMode,
            Action::ClearShell,
            Action::Lint,
            Action::Run,
            Action::Build,
            Action::Publish,
            Action::Push,
            Action::Install,
            Action::Clean,
            Action::AddPackage,
            Action::RemovePackage,
            Action::Commit,
            Action::LlmPush,
            Action::ShowDiff,
            Action::GenerateMessage,
            Action::VersionUpdate,
        ];
        proof {
            assert(r@ =~= all_actions());
        }
        r
    }
}

/// Each action stands in the list at its own index, once.
pub proof fn lemma_all_actions_indexed()
    ensures
        all_actions().len() == ACTION_COUNT,
        forall|a: Action| #[trigger] all_actions()[a.spec_index() as int] == a,
        forall|i: int| 0 <= i < ACTION_COUNT ==> (#[trigger] all_actions()[i]).spec_index() == i,
{
    assert forall|i: int| 0 <= i < ACTION_COUNT implies (#[trigger] all_actions()[i]).spec_index() == i by {
    }
}

} // verus!

verus! {

/// `a` comes before `b`, or equals it, in lexicographic order of their
/// characters.
pub open spec fn lex_le(a: Seq<char>, b: Seq<char>) -> bool
    decreases a.len(),
{
    if a.len() == 0 {
        true
    } else if b.len() == 0 {
        false
    } else if a[0] != b[0] {
        a[0] < b[0]
    } else {
        lex_le(a.drop_first(), b.drop_first())
    }
}

proof fn lemma_lex_total(a: Seq<char>, b: Seq<char>)
    ensures
        lex_le(a, b) || lex_le(b, a),
    decreases a.len(),
{
    if a.len() > 0 && b.len() > 0 && a[0] == b[0] {
        lemma_lex_total(a.drop_first(), b.drop_first());
    }
}

proof fn lemma_lex_trans(a: Seq<char>, b: Seq<char>, c: Seq<char>)
    requires
        lex_le(a, b),
        lex_le(b, c),
    ensures
        lex_le(a, c),
    decreases a.len(),
{
    if a.len() > 0 && b.len() > 0 && c.len() > 0 && a[0] == b[0] && b[0] == c[0] {
        lemma_lex_trans(a.drop_first(), b.drop_first(), c.drop_first());
    }
}

/// The order of the help screen: the actions with a fixed key first, then
/// by command.
pub open spec fn help_le(a: Action, b: Action) -> bool {
    if a.spec_is_editable() != b.spec_is_editable() {
        !a.spec_is_editable()
    } else {
        lex_le(a.spec_command_str()@, b.spec_command_str()@)
    }
}

proof fn lemma_help_total(a: Action, b: Action)
    ensures
        help_le(a, b) || help_le(b, a),
{
    lemma_lex_total(a.spec_command_str()@, b.spec_command_str()@);
}

proof fn lemma_help_trans(a: Action, b: Action, c: Action)
    requires
        help_le(a, b),
        help_le(b, c),
    ensures
        help_le(a, c),
{
    if a.spec_is_editable() == b.spec_is_editable() && b.spec_is_editable() == c.spec_is_editable() {
        lemma_lex_trans(a.spec_command_str()@, b.spec_command_str()@, c.spec_command_str()@);
    }
}

fn lex_le_exec(a: &str, b: &str) -> (r: bool)
    ensures
        r == lex_le(a@, b@),
{
    let x = crate::text::chars_of(a);
    let y = crate::text::chars_of(b);
    let mut i: usize = 0;
    proof {
        assert(x@.skip(0) =~= x@);
        assert(y@.skip(0) =~= y@);
    }
    while i < x.len() && i < y.len() && x[i] == y[i]
        invariant
            i <= x@.len(),
            i <= y@.len(),
            x@ == a@,
            y@ == b@,
            lex_le(x@.skip(i as int), y@.skip(i as int)) == lex_le(a@, b@),
        decreases x@.len() - i,
    {
        proof {
            assert(x@.skip(i as int).drop_first() =~= x@.skip(i + 1));
            assert(y@.skip(i as int).drop_first() =~= y@.skip(i + 1));
        }
        i += 1;
    }
    if i == x.len() {
        true
    } else if i == y.len() {
        false
    } else {
        x[i] < y[i]
    }
}

fn help_le_exec(a: Action, b: Action) -> (r: bool)
    ensures
        r == help_le(a, b),
{
    if a.is_editable() != b.is_editable() {
        !a.is_editable()
    } else {
        lex_le_exec(a.command_str(), b.command_str())
    }
}

/// Every action once, in the order of the help screen; see `help_le`.
pub fn sorted_for_help() -> (r: Vec<Action>)
    ensures
        r@.to_multiset() == all_actions().to_multiset(),
        forall|i: int, j: int| 0 <= i < j < r@.len() ==> help_le(#[trigger] r@[i], #[trigger] r@[j]),
{
    let all = Action::all();
    let mut r: Vec<Action> = Vec::new();
    let mut k: usize = 0;
    proof {
        assert(all@.take(0) =~= Seq::<Action>::empty());
        assert(r@ =~= Seq::<Action>::empty());
    }
    while k < all.len()
        invariant
            k <= all@.len(),
            all@ == all_actions(),
            r@.to_multiset() == all@.take(k as int).to_multiset(),
            forall|i: int, j: int| 0 <= i < j < r@.len() ==> help_le(#[trigger] r@[i], #[trigger] r@[j]),
        decreases all@.len() - k,
    {
        let x = all[k];
        let mut p: usize = 0;
        while p < r.len() && help_le_exec(r[p], x)
            invariant
                p <= r@.len(),
                forall|i: int| 0 <= i < p ==> help_le(#[trigger] r@[i], x),
            decreases r@.len() - p,
        {
            p += 1;
        }
        let ghost before = r@;
        r.insert(p, x);
        proof {
            assert(r@ =~= before.insert(p as int, x));
            assert(all@.take(k + 1) =~= all@.take(k as int).push(x));
            vstd::seq_lib::to_multiset_insert(before, p as int, x);
            vstd::seq_lib::to_multiset_build(all@.take(k as int), x);
            assert forall|i: int, j: int| 0 <= i < j < r@.len() implies help_le(#[trigger] r@[i], #[trigger] r@[j]) by {
                if i == p && j > p {
                    lemma_help_total(before[p as int], x);
                    if j - 1 > p {
                        lemma_help_trans(x, before[p as int], before[j - 1]);
                    }
                }
            }
        }
        k += 1;
    }
    proof {
        assert(all@.take(k as int) =~= all@);
    }
    r
}

} // verus!
