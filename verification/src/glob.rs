//! Glob patterns, compiled and matched by the `globset` crate.
//!
//! Nothing in this module is proved about how a glob matches: the crate's
//! answers are given names, and the contracts here say which call yields
//! which name. The loop that compiles a list of patterns is verified against
//! those contracts.
//!
//! Every glob is compiled by `compile_glob`, with one fixed choice of
//! options, and the names speak of globs compiled so. What `globset`
//! answers depends on its arguments and on the platform it is built for
//! (whether `\` separates components), never on anything read at run time.

use crate::text::texts;
use vstd::prelude::*;

verus! {

/// `globset::Glob`, a parsed pattern. Opaque here.
#[verifier::external_type_specification]
#[verifier::external_body]
pub struct ExGlob(globset::Glob);

/// `globset::GlobSet`, a matcher for several globs at once. Opaque here.
#[verifier::external_type_specification]
#[verifier::external_body]
pub struct ExGlobSet(globset::GlobSet);

/// `globset::GlobSetBuilder`, the globs collected for a set. Opaque here.
#[verifier::external_type_specification]
#[verifier::external_body]
pub struct ExGlobSetBuilder(globset::GlobSetBuilder);

/// `globset::Error`, why a pattern or a set was refused. Opaque here, and
/// mapped to `PatternError`.
#[verifier::external_type_specification]
#[verifier::external_body]
pub struct ExGlobError(globset::Error);

/// Whether `globset` accepts `pattern` as a glob when empty alternates are
/// allowed and every other option is left at its default.
pub uninterp spec fn glob_compiles(pattern: Seq<char>) -> bool;

/// The pattern text that a glob compiled by `compile_glob` was parsed from,
/// as `Glob::glob` reports it.
pub uninterp spec fn glob_source(glob: globset::Glob) -> Seq<char>;

/// The pattern texts of the globs added to a builder so far, in order.
pub uninterp spec fn builder_patterns(builder: globset::GlobSetBuilder) -> Seq<Seq<char>>;

/// Whether `globset` can compile the globs parsed from `patterns` into one
/// set.
pub uninterp spec fn glob_set_builds(patterns: Seq<Seq<char>>) -> bool;

/// The pattern texts of the globs that a set was built from, in order.
pub uninterp spec fn glob_set_patterns(set: globset::GlobSet) -> Seq<Seq<char>>;

/// Whether a set built from `patterns` reports a match for `candidate`, that
/// is, whether at least one of its globs matches the candidate. `globset`
/// reads the candidate as a path of the platform it is built for: where
/// that platform separates components by another character than `/`, it
/// takes that character for `/`.
pub uninterp spec fn glob_set_matches(patterns: Seq<Seq<char>>, candidate: Seq<char>) -> bool;

/// Why a list of patterns could not be turned into a matcher.
#[derive(Clone, Copy, Debug, PartialEq, Eq, Structural)]
pub enum PatternError {
    /// The pattern at this position is not a well-formed glob.
    Malformed(usize),
    /// Every pattern is well formed, but the set as a whole was refused.
    SetRejected,
}

/// `GlobBuilder::new(pattern).empty_alternates(true).build()`.
///
/// Trusted: the call succeeds exactly on the patterns that `glob_compiles`
/// names, and the glob it returns remembers the text it was parsed from.
#[verifier::external_body]
fn compile_glob(pattern: &str) -> (r: Result<globset::Glob, globset::Error>)
    ensures
        r is Ok <==> glob_compiles(pattern@),
        r is Ok ==> glob_source(r->Ok_0) == pattern@,
{
    globset::GlobBuilder::new(pattern).empty_alternates(true).build()
}

/// `GlobSetBuilder::new()`.
///
/// Trusted: a new builder holds no glob.
#[verifier::external_body]
fn new_builder() -> (r: globset::GlobSetBuilder)
    ensures
        builder_patterns(r) == Seq::<Seq<char>>::empty(),
{
    globset::GlobSetBuilder::new()
}

/// `GlobSetBuilder::add`.
///
/// Trusted: the glob is appended to those the builder already holds.
#[verifier::external_body]
fn add_glob(builder: &mut globset::GlobSetBuilder, glob: globset::Glob)
    ensures
        builder_patterns(*final(builder)) == builder_patterns(*old(builder)).push(
            glob_source(glob),
        ),
{
    builder.add(glob);
}

/// `GlobSetBuilder::build`.
///
/// Trusted: the call succeeds exactly when `glob_set_builds` holds of the
/// globs added, and the set it returns is made of those globs, in order.
#[verifier::external_body]
fn build_set(builder: &globset::GlobSetBuilder) -> (r: Result<globset::GlobSet, globset::Error>)
    ensures
        r is Ok <==> glob_set_builds(builder_patterns(*builder)),
        r is Ok ==> glob_set_patterns(r->Ok_0) == builder_patterns(*builder),
{
    builder.build()
}

/// `GlobSet::is_match`.
///
/// Trusted: for a set whose globs were all compiled by `compile_glob`, the
/// answer depends on the texts of those globs and on the candidate's text
/// alone, and is the one that `glob_set_matches` names.
#[verifier::external_body]
pub(crate) fn set_is_match(set: &globset::GlobSet, candidate: &str) -> (r: bool)
    ensures
        r == glob_set_matches(glob_set_patterns(*set), candidate@),
{
    set.is_match(candidate)
}

/// Every pattern of the list is a well-formed glob.
pub open spec fn all_compile(patterns: Seq<Seq<char>>) -> bool {
    forall|i: int| 0 <= i < patterns.len() ==> glob_compiles(#[trigger] patterns[i])
}

/// The cause for which a list of patterns is refused: the first malformed
/// pattern is reported; if there is none, the set was refused as a whole.
pub open spec fn refused_as(patterns: Seq<Seq<char>>, cause: PatternError) -> bool {
    match cause {
        PatternError::Malformed(i) => {
            &&& i < patterns.len()
            &&& !glob_compiles(patterns[i as int])
            &&& all_compile(patterns.take(i as int))
        },
        PatternError::SetRejected => {
            &&& all_compile(patterns)
            &&& !glob_set_builds(patterns)
        },
    }
}

/// What `patterns_to_globset` returns for a list of patterns: a matcher made
/// of all of them, or the cause for which the list is refused.
pub open spec fn compiled_as(
    patterns: Seq<Seq<char>>,
    r: Result<globset::GlobSet, PatternError>,
) -> bool {
    match r {
        Ok(set) => {
            &&& all_compile(patterns)
            &&& glob_set_builds(patterns)
            &&& glob_set_patterns(set) == patterns
        },
        Err(cause) => refused_as(patterns, cause),
    }
}

/// Compiles a list of patterns into one matcher.
pub fn patterns_to_globset(patterns: &Vec<String>) -> (r: Result<globset::GlobSet, PatternError>)
    ensures
        compiled_as(texts(patterns@), r),
{
    let ghost pats = texts(patterns@);
    let mut builder = new_builder();
    let mut i: usize = 0;
    while i < patterns.len()
        invariant
            i <= patterns.len(),
            pats == texts(patterns@),
            builder_patterns(builder) == pats.take(i as int),
            all_compile(pats.take(i as int)),
        decreases patterns.len() - i,
    {
        match compile_glob(patterns[i].as_str()) {
            Ok(glob) => {
                add_glob(&mut builder, glob);
                assert(pats.take(i + 1) == pats.take(i as int).push(pats[i as int]));
            },
            Err(_) => {
                return Err(PatternError::Malformed(i));
            },
        }
        i += 1;
    }
    assert(pats.take(i as int) == pats);
    match build_set(&builder) {
        Ok(set) => Ok(set),
        Err(_) => Err(PatternError::SetRejected),
    }
}

} // verus!
