//! Where the code of a planner script comes from: a script bundled with the program, named
//! with the `makepdf:` prefix, or a file.

use crate::text::str_eq;
use vstd::prelude::*;

verus! {

/// A script bundled with the program.
#[derive(Clone, Copy, Debug, PartialEq, Eq, Structural)]
pub enum BundledScript {
    Example,
    Panda,
}

impl BundledScript {
    /// The name under which the script is bundled.
    pub open spec fn name_spec(self) -> Seq<char> {
        match self {
            BundledScript::Example => "example"@,
            BundledScript::Panda => "panda"@,
        }
    }

    /// The name under which the script is bundled.
    pub fn name(self) -> (r: &'static str)
        ensures
            r@ == self.name_spec(),
    {
        match self {
            BundledScript::Example => "example",
            BundledScript::Panda => "panda",
        }
    }
}

/// Where the code of a script comes from.
#[derive(Debug)]
pub enum ScriptSource {
    /// A script bundled with the program.
    Bundled(BundledScript),
    /// A file at this path.
    File(String),
}

/// What a script source is, with the path as text.
pub enum ScriptSourceView {
    Bundled(BundledScript),
    File(Seq<char>),
}

impl View for ScriptSource {
    type V = ScriptSourceView;

    open spec fn view(&self) -> ScriptSourceView {
        match self {
            ScriptSource::Bundled(b) => ScriptSourceView::Bundled(*b),
            ScriptSource::File(path) => ScriptSourceView::File(path@),
        }
    }
}

/// Prefix with which a script names a bundled script.
pub open spec fn bundled_prefix() -> Seq<char> {
    "makepdf:"@
}

/// Where the script named `s` comes from: the bundled script whose name follows the
/// prefix `makepdf:`, or else the file at path `s`.
pub open spec fn script_source_spec(s: Seq<char>) -> ScriptSourceView {
    if s.len() >= 8 && s.take(8) == bundled_prefix() && s.skip(8) == BundledScript::Example.name_spec() {
        ScriptSourceView::Bundled(BundledScript::Example)
    } else if s.len() >= 8 && s.take(8) == bundled_prefix() && s.skip(8) == BundledScript::Panda.name_spec() {
        ScriptSourceView::Bundled(BundledScript::Panda)
    } else {
        ScriptSourceView::File(s)
    }
}

/// Finds where the code of the script named `script` comes from.
pub fn resolve_script(script: &str) -> (r: ScriptSource)
    ensures
        r@ == script_source_spec(script@),
{
    proof {
        reveal_strlit("makepdf:");
        reveal_strlit("example");
        reveal_strlit("panda");
    }
    let n = script.unicode_len();
    if n >= 8 {
        let prefix = script.substring_char(0, 8);
        let rest = script.substring_char(8, n);
        proof {
            assert(prefix@ =~= script@.take(8));
            assert(rest@ =~= script@.skip(8));
        }
        if str_eq(prefix, "makepdf:") {
            if str_eq(rest, "example") {
                return ScriptSource::Bundled(BundledScript::Example);
            }
            if str_eq(rest, "panda") {
                return ScriptSource::Bundled(BundledScript::Panda);
            }
        }
    }
    ScriptSource::File(script.to_string())
}


/// The bundled scripts are named `example` and `panda`, each name naming its own script only.
pub proof fn law_bundled_script_names()
    ensures
        forall|k: BundledScript| (#[trigger] k.name_spec() == "example"@) <==> k == BundledScript::Example,
        forall|k: BundledScript| (#[trigger] k.name_spec() == "panda"@) <==> k == BundledScript::Panda,
{
    reveal_strlit("example");
    reveal_strlit("panda");
    assert forall|k: BundledScript| (#[trigger] k.name_spec() == "example"@) <==> k == BundledScript::Example by {
        match k {
            BundledScript::Example => {},
            BundledScript::Panda => { assert("panda"@.len() != "example"@.len()); },
        }
    }
    assert forall|k: BundledScript| (#[trigger] k.name_spec() == "panda"@) <==> k == BundledScript::Panda by {
        match k {
            BundledScript::Example => { assert("example"@.len() != "panda"@.len()); },
            BundledScript::Panda => {},
        }
    }
}

} // verus!
