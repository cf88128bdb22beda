use vstd::prelude::*;
use vstd::string::StringExecFns;

use crate::language::Language;

verus! {

/// An external command: a program name and its arguments.
#[derive(Debug, Clone)]
pub struct TestInvocation {
    pub program: String,
    pub args: Vec<String>,
}

impl View for TestInvocation {
    type V = (Seq<char>, Seq<Seq<char>>);

    open spec fn view(&self) -> (Seq<char>, Seq<Seq<char>>) {
        (self.program@, self.args@.map_values(|a: String| a@))
    }
}

impl TestInvocation {
    /// A copy with the same program and arguments.
    pub fn duplicate(&self) -> (r: TestInvocation)
        ensures
            r@ == self@,
    {
        let mut args: Vec<String> = Vec::new();
        let mut i: usize = 0;
        while i < self.args.len()
            invariant
                0 <= i <= self.args@.len(),
                args@.len() == i,
                forall|j: int| 0 <= j < i ==> #[trigger] args@[j]@ == self.args@[j]@,
            decreases self.args@.len() - i,
        {
            args.push(self.args[i].clone());
            i = i + 1;
        }
        let r = TestInvocation { program: self.program.clone(), args };
        assert(r@.1 =~= self@.1);
        r
    }
}

/// The test command of each known project kind; none for `Unknown`.
pub open spec fn test_command_of(lang: Language) -> Option<(Seq<char>, Seq<Seq<char>>)> {
    match lang {
        Language::Python => Some(("pytest"@, seq!["-q"@])),
        Language::Node => Some(("npx"@, seq!["jest"@, "--passWithNoTests"@])),
        Language::Go => Some(("go"@, seq!["test"@, "./..."@])),
        Language::Rust => Some(("cargo"@, seq!["test"@])),
        Language::Unknown => None,
    }
}

fn invocation(program: &str, args: &[&str]) -> (r: TestInvocation)
    ensures
        r@.0 == program@,
        r@.1 == args@.map_values(|a: &str| a@),
{
    let mut v: Vec<String> = Vec::new();
    let mut i: usize = 0;
    while i < args.len()
        invariant
            0 <= i <= args@.len(),
            v@.len() == i,
            forall|j: int| 0 <= j < i ==> #[trigger] v@[j]@ == args@[j]@,
        decreases args@.len() - i,
    {
        v.push(String::from_str(args[i]));
        i = i + 1;
    }
    let r = TestInvocation { program: String::from_str(program), args: v };
    assert(r@.1 =~= args@.map_values(|a: &str| a@));
    r
}

/// Resolves the command that runs the test suite of a project kind.
pub fn resolve_test_command(lang: Language) -> (r: Option<TestInvocation>)
    ensures
        r is None <==> test_command_of(lang) is None,
        r is Some ==> test_command_of(lang) == Some(r->Some_0@),
{
    match lang {
        Language::Python => {
            let r = invocation("pytest", &["-q"]);
            assert(r@.1 =~= seq!["-q"@]);
            Some(r)
        },
        Language::Node => {
            let r = invocation("npx", &["jest", "--passWithNoTests"]);
            assert(r@.1 =~= seq!["jest"@, "--passWithNoTests"@]);
            Some(r)
        },
        Language::Go => {
            let r = invocation("go", &["test", "./..."]);
            assert(r@.1 =~= seq!["test"@, "./..."@]);
            Some(r)
        },
        Language::Rust => {
            let r = invocation("cargo", &["test"]);
            assert(r@.1 =~= seq!["test"@]);
            Some(r)
        },
        Language::Unknown => None,
    }
}

} // verus!
