use vstd::prelude::*;

verus! {

/// The named shell commands of a project: `(name, command)` pairs.
pub struct ProjectConfig {
    pub scripts: Vec<(String, String)>,
}

/// The scripts as pairs of character sequences.
pub open spec fn scripts_view(s: Seq<(String, String)>) -> Seq<(Seq<char>, Seq<char>)> {
    s.map_values(|p: (String, String)| (p.0@, p.1@))
}

/// The scripts of a Rust project.
pub open spec fn rust_scripts() -> Seq<(&'static str, &'static str)> {
    seq![
        ("dev", "cargo run"),
        ("build", "cargo build"),
        ("lint", "cargo fmt --all"),
        ("publish", "cargo publish"),
        ("install", "cargo install --path ."),
        ("clean", "cargo clean"),
        ("add", "cargo add"),
        ("remove", "cargo remove"),
    ]
}

/// The scripts of a pnpm project.
pub open spec fn pnpm_scripts() -> Seq<(&'static str, &'static str)> {
    seq![
        ("dev", "pnpm dev"),
        ("build", "pnpm build"),
        ("lint", "pnpm lint"),
        ("publish", "pnpm publish"),
        ("install", "pnpm install"),
        ("clean", "pnpm clean"),
        ("add", "pnpm add"),
        ("remove", "pnpm remove"),
    ]
}

/// Literal pairs as character sequences.
pub open spec fn literal_pairs(s: Seq<(&'static str, &'static str)>) -> Seq<(Seq<char>, Seq<char>)> {
    s.map_values(|p: (&'static str, &'static str)| (p.0@, p.1@))
}

fn script_from(pairs: &[(&'static str, &'static str)]) -> (r: ProjectConfig)
    ensures
        scripts_view(r.scripts@) == literal_pairs(pairs@),
{
    let mut scripts: Vec<(String, String)> = Vec::new();
    let mut i: usize = 0;
    while i < pairs.len()
        invariant
            i <= pairs@.len(),
            scripts_view(scripts@) == literal_pairs(pairs@.take(i as int)),
        decreases pairs@.len() - i,
    {
        let (name, command) = pairs[i];
        let ghost before = scripts@;
        scripts.push((name.to_owned(), command.to_owned()));
        proof {
            assert(scripts_view(scripts@) =~= scripts_view(before).push((name@, command@)));
            assert(literal_pairs(pairs@.take(i as int + 1)) =~= literal_pairs(pairs@.take(i as int)).push((name@, command@)));
        }
        i += 1;
    }
    proof {
        assert(pairs@.take(i as int) =~= pairs@);
    }
    ProjectConfig { scripts }
}

/// The scripts a Rust project starts with.
pub fn get_default_rust_config() -> (r: ProjectConfig)
    ensures
        scripts_view(r.scripts@) == literal_pairs(rust_scripts()),
{
    let pairs = [
        ("dev", "cargo run"),
        ("build", "cargo build"),
        ("lint", "cargo fmt --all"),
        ("publish", "cargo publish"),
        ("install", "cargo install --path ."),
        ("clean", "cargo clean"),
        ("add", "cargo add"),
        ("remove", "cargo remove"),
    ];
    proof {
        assert(pairs@ =~= rust_scripts());
    }
    script_from(&pairs)
}

/// The scripts a pnpm project starts with.
pub fn get_default_pnpm_config() -> (r: ProjectConfig)
    ensures
        scripts_view(r.scripts@) == literal_pairs(pnpm_scripts()),
{
    let pairs = [
        ("dev", "pnpm dev"),
        ("build", "pnpm build"),
        ("lint", "pnpm lint"),
        ("publish", "pnpm publish"),
        ("install", "pnpm install"),
        ("clean", "pnpm clean"),
        ("add", "pnpm add"),
        ("remove", "pnpm remove"),
    ];
    proof {
        assert(pairs@ =~= pnpm_scripts());
    }
    script_from(&pairs)
}

/// The command of the first script named `name` in `s`.
pub open spec fn lookup(s: Seq<(Seq<char>, Seq<char>)>, name: Seq<char>) -> Option<Seq<char>>
    decreases s.len(),
{
    if s.len() == 0 {
        None
    } else if s[0].0 == name {
        Some(s[0].1)
    } else {
        lookup(s.drop_first(), name)
    }
}

impl ProjectConfig {
    /// The command of the first script named `name`, if any.
    pub fn script(&self, name: &String) -> (r: Option<&String>)
        ensures
            match r {
                Some(c) => lookup(scripts_view(self.scripts@), name@) == Some(c@),
                None => lookup(scripts_view(self.scripts@), name@) is None,
            },
    {
        let ghost all = scripts_view(self.scripts@);
        let mut i: usize = 0;
        proof {
            assert(all.skip(0) =~= all);
        }
        while i < self.scripts.len()
            invariant
                i <= self.scripts@.len(),
                all == scripts_view(self.scripts@),
                lookup(all.skip(i as int), name@) == lookup(all, name@),
            decreases self.scripts@.len() - i,
        {
            proof {
                assert(all.skip(i as int).drop_first() =~= all.skip(i + 1));
            }
            if self.scripts[i].0 == *name {
                return Some(&self.scripts[i].1);
            }
            i += 1;
        }
        None
    }
}

/// The kind of project found in a directory.
#[derive(Clone, Copy, Debug, PartialEq, Eq, Structural)]
pub enum ProjectType {
    Rust,
    Pnpm,
    Unknown,
}

/// A Rust project where the directory has a Cargo.toml, else a pnpm project
/// where it has a package.json.
pub fn detect_project_type(has_cargo_toml: bool, has_package_json: bool) -> (r: ProjectType)
    ensures
        r == if has_cargo_toml {
            ProjectType::Rust
        } else if has_package_json {
            ProjectType::Pnpm
        } else {
            ProjectType::Unknown
        },
{
    if has_cargo_toml {
        ProjectType::Rust
    } else if has_package_json {
        ProjectType::Pnpm
    } else {
        ProjectType::Unknown
    }
}

} // verus!
