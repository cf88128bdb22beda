use vstd::prelude::*;

use globset::{Glob, GlobSet, GlobSetBuilder};

use crate::text::views_of;

verus! {

#[verifier::external_type_specification]
#[verifier::external_body]
pub struct ExGlobSet(GlobSet);

#[verifier::external_type_specification]
#[verifier::external_body]
pub struct ExGlobSetBuilder(GlobSetBuilder);

#[verifier::external_type_specification]
#[verifier::external_body]
pub struct ExGlobError(globset::Error);

/// Whether globset accepts a pattern as a glob.
pub uninterp spec fn glob_is_valid(pattern: Seq<char>) -> bool;

/// Whether a single glob pattern matches a path.
pub uninterp spec fn glob_matches(pattern: Seq<char>, path: Seq<char>) -> bool;

/// The patterns added to a builder, in order.
pub uninterp spec fn builder_patterns(b: GlobSetBuilder) -> Seq<Seq<char>>;

/// The patterns a compiled set was built from, in order.
pub uninterp spec fn set_patterns(s: GlobSet) -> Seq<Seq<char>>;

/// True when every pattern is a well-formed glob.
pub open spec fn all_valid(patterns: Seq<Seq<char>>) -> bool {
    forall|i: int| 0 <= i < patterns.len() ==> glob_is_valid(#[trigger] patterns[i])
}

/// True when a matcher can be built from the patterns: each is a
/// well-formed glob, and together they compile.
pub open spec fn builds(patterns: Seq<Seq<char>>) -> bool {
    all_valid(patterns) && globs_compile(patterns)
}

/// True when some pattern of `patterns` matches `path`.
pub open spec fn any_matches(patterns: Seq<Seq<char>>, path: Seq<char>) -> bool {
    exists|i: int| 0 <= i < patterns.len() && glob_matches(#[trigger] patterns[i], path)
}

/// Relies on `GlobSetBuilder::new`: a builder with no patterns.
#[verifier::external_body]
fn new_builder() -> (r: GlobSetBuilder)
    ensures
        builder_patterns(r) == Seq::<Seq<char>>::empty(),
{
    GlobSetBuilder::new()
}

/// Relies on `Glob::new`, which fails exactly on a malformed pattern, and on
/// `GlobSetBuilder::add`, which appends the parsed glob to the builder.
#[verifier::external_body]
fn add_pattern(b: &mut GlobSetBuilder, pattern: &str) -> (r: Result<(), globset::Error>)
    ensures
        r is Ok <==> glob_is_valid(pattern@),
        r is Ok ==> builder_patterns(*final(b)) == builder_patterns(*old(b)).push(pattern@),
        r is Err ==> *final(b) == *old(b),
{
    let glob = Glob::new(pattern)?;
    b.add(glob);
    Ok(())
}

/// Whether globset can compile a list of valid patterns into one set; it
/// fails only when the compiled matcher would pass its size limits.
pub uninterp spec fn globs_compile(patterns: Seq<Seq<char>>) -> bool;

/// Relies on `GlobSetBuilder::build` (through `GlobSet::new`): whether it
/// succeeds depends on the patterns alone, with no patterns it returns the
/// empty set, and on success the set holds the builder's patterns.
#[verifier::external_body]
fn build_set(b: &GlobSetBuilder) -> (r: Result<GlobSet, globset::Error>)
    ensures
        r is Ok <==> globs_compile(builder_patterns(*b)),
        builder_patterns(*b).len() == 0 ==> r is Ok,
        r is Ok ==> set_patterns(r->Ok_0) == builder_patterns(*b),
{
    b.build()
}

/// Relies on `GlobSet::is_match`: true if any glob of the set matches the
/// path.
#[verifier::external_body]
fn set_is_match(s: &GlobSet, path: &str) -> (r: bool)
    ensures
        r == (exists|i: int|
            0 <= i < set_patterns(*s).len() && glob_matches(#[trigger] set_patterns(*s)[i], path@)),
{
    s.is_match(path)
}

/// Why an ignore set could not be built.
#[derive(Debug, Clone, PartialEq, Eq)]
pub enum IgnoreError {
    /// A pattern that is not a well-formed glob.
    InvalidPattern(String),
    /// The set of valid patterns could not be compiled into one matcher.
    Build,
}

/// A compiled set of ignore globs.
pub struct IgnoreMatcher {
    set: GlobSet,
}

impl IgnoreMatcher {
    /// The patterns of the matcher.
    pub closed spec fn patterns(&self) -> Seq<Seq<char>> {
        set_patterns(self.set)
    }

    /// Whether a path, relative to the watched root, is suppressed.
    pub open spec fn suppresses(&self, rel: Seq<char>) -> bool {
        any_matches(self.patterns(), rel)
    }

    /// Compiles the patterns into one matcher. Fails on the first malformed
    /// pattern, or when the valid patterns do not compile together; with no
    /// patterns it always succeeds, and the matcher suppresses nothing.
    pub fn new(patterns: &Vec<String>) -> (r: Result<IgnoreMatcher, IgnoreError>)
        ensures
            r is Ok <==> builds(views_of(patterns@)),
            patterns@.len() == 0 ==> r is Ok,
            r matches Err(IgnoreError::Build) ==> all_valid(views_of(patterns@)) && !globs_compile(
                views_of(patterns@),
            ),
            r matches Ok(m) ==> m.patterns() == views_of(patterns@),
            r matches Ok(m) ==> forall|i: int|
                0 <= i < patterns@.len() ==> glob_is_valid(#[trigger] patterns@[i]@),
            (exists|i: int| 0 <= i < patterns@.len() && !glob_is_valid(#[trigger] patterns@[i]@))
                <==> r matches Err(IgnoreError::InvalidPattern(_)),
            r matches Err(IgnoreError::InvalidPattern(p)) ==> exists|i: int|
                0 <= i < patterns@.len() && #[trigger] patterns@[i]@ == p@ && !glob_is_valid(p@)
                    && forall|j: int| 0 <= j < i ==> glob_is_valid(#[trigger] patterns@[j]@),
    {
        let mut b = new_builder();
        let mut i: usize = 0;
        while i < patterns.len()
            invariant
                0 <= i <= patterns@.len(),
                builder_patterns(b) == views_of(patterns@.take(i as int)),
                forall|j: int| 0 <= j < i ==> glob_is_valid(#[trigger] patterns@[j]@),
            decreases patterns@.len() - i,
        {
            match add_pattern(&mut b, patterns[i].as_str()) {
                Ok(()) => {},
                Err(_) => {
                    assert(views_of(patterns@)[i as int] == patterns@[i as int]@);
                    return Err(IgnoreError::InvalidPattern(patterns[i].clone()));
                },
            }
            assert(views_of(patterns@.take(i + 1)) =~= views_of(patterns@.take(i as int)).push(
                patterns@[i as int]@,
            ));
            i = i + 1;
        }
        assert(patterns@.take(i as int) =~= patterns@);
        assert(all_valid(views_of(patterns@)));
        match build_set(&b) {
            Ok(set) => Ok(IgnoreMatcher { set }),
            Err(_) => Err(IgnoreError::Build),
        }
    }

    /// Whether a path relative to the root is suppressed.
    pub fn is_suppressed(&self, rel: &str) -> (r: bool)
        ensures
            r == self.suppresses(rel@),
    {
        set_is_match(&self.set, rel)
    }
}

} // verus!
