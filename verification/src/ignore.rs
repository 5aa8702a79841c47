//! Ignore rules: reading them out of ignore-file text, and matching
//! directory entries against them.

use crate::entry::DirectoryEntry;
use crate::path::{strip_prefix, stripped};
use crate::pattern::{pattern_compiles, pattern_found_in, search};
use crate::text::{chars_of, marks, slice, split, split_marks};
use vstd::string::StringExecFns;
use vstd::prelude::*;

verus! {

/// Why a set of ignore rules could not be loaded or applied.
#[derive(Debug, PartialEq, Eq)]
pub enum IgnoreError {
    /// Neither the local nor the global ignore file of the tool exists.
    MissingIgnoreConfig,
    /// A rule is not a valid regular expression.
    InvalidIgnorePattern { pattern: String },
    /// An entry does not lie under the directory that is walked.
    PathPrefixError,
}

/// The mathematical value of an [`IgnoreError`].
pub enum IgnoreErrorView {
    MissingIgnoreConfig,
    InvalidIgnorePattern { pattern: Seq<char> },
    PathPrefixError,
}

impl View for IgnoreError {
    type V = IgnoreErrorView;

    open spec fn view(&self) -> IgnoreErrorView {
        match self {
            IgnoreError::MissingIgnoreConfig => IgnoreErrorView::MissingIgnoreConfig,
            IgnoreError::InvalidIgnorePattern { pattern } => IgnoreErrorView::InvalidIgnorePattern {
                pattern: pattern@,
            },
            IgnoreError::PathPrefixError => IgnoreErrorView::PathPrefixError,
        }
    }
}

/// The rule that keeps the tool's own ignore file from being linked.
pub open spec fn implicit_rule() -> Seq<char> {
    ".wots-ignore"@
}

/// The text of a line, given the piece of the file that ends at its line
/// break (or at the end of the file, for the last piece): a carriage return
/// directly before the line break belongs to the break.
pub open spec fn line_of(piece: Seq<char>, last: bool) -> Seq<char> {
    if !last && piece.len() > 0 && piece.last() == '\r' {
        piece.drop_last()
    } else {
        piece
    }
}

/// The non-empty lines among the first `n` of `pieces`, in order.
pub open spec fn kept_lines(pieces: Seq<Seq<char>>, n: int) -> Seq<Seq<char>>
    decreases n,
{
    if n <= 0 {
        Seq::empty()
    } else {
        let before = kept_lines(pieces, n - 1);
        let line = line_of(pieces[n - 1], n == pieces.len());
        if line.len() == 0 {
            before
        } else {
            before.push(line)
        }
    }
}

/// The rules that an ignore file with contents `text` holds: its non-empty
/// lines, in file order.
pub open spec fn rule_lines(text: Seq<char>) -> Seq<Seq<char>> {
    let pieces = split(text, '\n');
    kept_lines(pieces, pieces.len() as int)
}

/// The view of an optional text.
pub open spec fn text_of(text: Option<&str>) -> Option<Seq<char>> {
    match text {
        Some(t) => Some(t@),
        None => None,
    }
}

/// The rule set that the given ignore files make: the rules of the
/// version-control ignore file if there is one, then those of the tool's
/// ignore file, then the implicit rule.
pub open spec fn rule_set(gitignore: Option<Seq<char>>, tool: Seq<char>) -> Seq<Seq<char>> {
    let first = match gitignore {
        Some(text) => rule_lines(text),
        None => Seq::empty(),
    };
    first + rule_lines(tool) + seq![implicit_rule()]
}

/// Appends the rules that an ignore file with the given contents holds.
pub fn read_rules(contents: &str, rules: &mut Vec<String>)
    ensures
        final(rules).deep_view() == old(rules).deep_view() + rule_lines(contents@),
{
    let ghost before = rules.deep_view();
    let ghost pieces = split(contents@, '\n');
    let chars = chars_of(contents);
    let cuts = split_marks(&chars, '\n');
    let mut k: usize = 0;
    assert(rules.deep_view() == before + kept_lines(pieces, 0));
    while k < cuts.len()
        invariant
            chars@ == contents@,
            pieces == split(contents@, '\n'),
            marks(cuts@, contents@, '\n'),
            k <= cuts.len(),
            rules.deep_view() == before + kept_lines(pieces, k as int),
        decreases cuts.len() - k,
    {
        let ghost so_far = rules.deep_view();
        let from: usize = cuts[k].0;
        let to: usize = cuts[k].1;
        let mut end: usize = to;
        if k + 1 < cuts.len() && from < to && chars[to - 1] == '\r' {
            end = to - 1;
        }
        proof {
            let piece = contents@.subrange(from as int, to as int);
            assert(piece == pieces[k as int]);
            assert(contents@.subrange(from as int, end as int) == line_of(
                piece,
                k + 1 == pieces.len(),
            ));
        }
        if from < end {
            let line = slice(contents, from, end);
            rules.push(line);
            assert(rules.deep_view() == so_far.push(line@));
        }
        k = k + 1;
    }
}

/// Builds the ignore rule set of a directory walk from the contents of the
/// ignore files that exist.
///
/// `gitignore` is the version-control ignore file of the directory, `local`
/// the tool's ignore file in the directory and `global` the tool's fallback
/// file in the home directory; each is `None` where the file does not exist.
/// The tool's rules come from `local` where it exists, else from `global`;
/// where neither exists there is no rule set.
pub fn get_ignore_files(gitignore: Option<&str>, local: Option<&str>, global: Option<&str>) -> (r:
    Result<Vec<String>, IgnoreError>)
    ensures
        (local is Some || global is Some) <==> r is Ok,
        r matches Ok(rules) ==> rules.deep_view() == rule_set(
            text_of(gitignore),
            if local is Some {
                local->0@
            } else {
                global->0@
            },
        ),
        r matches Err(e) ==> e@ == IgnoreErrorView::MissingIgnoreConfig,
{
    let tool: &str = match local {
        Some(text) => text,
        None => match global {
            Some(text) => text,
            None => {
                return Err(IgnoreError::MissingIgnoreConfig);
            },
        },
    };
    let mut ignore_files: Vec<String> = Vec::new();
    assert(ignore_files.deep_view() == Seq::<Seq<char>>::empty());
    match gitignore {
        Some(text) => {
            read_rules(text, &mut ignore_files);
        },
        None => {},
    }
    let ghost first = ignore_files.deep_view();
    read_rules(tool, &mut ignore_files);
    let ghost second = ignore_files.deep_view();
    let own = ".wots-ignore".to_owned();
    ignore_files.push(own);
    assert(ignore_files.deep_view() == second.push(implicit_rule()));
    assert(second.push(implicit_rule()) == second + seq![implicit_rule()]);
    Ok(ignore_files)
}

/// How one rule fares against one entry.
#[derive(Debug, Clone, Copy, PartialEq, Eq, Structural)]
pub enum RuleOutcome {
    /// The rule is not a valid regular expression.
    Malformed,
    /// The rule matches the entry.
    Matched,
    /// The rule is valid and does not match the entry.
    Passed,
}

/// The pattern of a rule: the rule without the `/` that marks a directory at
/// its end, if it has one.
pub open spec fn rule_pattern(rule: Seq<char>) -> Seq<char> {
    if rule.len() > 0 && rule.last() == '/' {
        rule.drop_last()
    } else {
        rule
    }
}

/// The second form under which an entry is matched: its relative path behind
/// a separator, so that a pattern that starts with one can match an entry at
/// the top of the directory.
pub open spec fn rooted_form(relative: Seq<char>) -> Seq<char> {
    seq!['/'] + relative
}

/// What a search for `pattern` in `haystack` gives: nothing for a pattern
/// that does not compile, else whether there is a match.
pub open spec fn searched(pattern: Seq<char>, haystack: Seq<char>) -> Option<bool> {
    if pattern_compiles(pattern) {
        Some(pattern_found_in(pattern, haystack))
    } else {
        None
    }
}

/// The outcome of a rule, from what the searches in the two forms of an entry
/// gave: a match in either form is a match.
pub open spec fn outcome_of(relative: Option<bool>, rooted: Option<bool>) -> RuleOutcome {
    match (relative, rooted) {
        (Some(true), _) => RuleOutcome::Matched,
        (Some(false), Some(true)) => RuleOutcome::Matched,
        (Some(false), Some(false)) => RuleOutcome::Passed,
        _ => RuleOutcome::Malformed,
    }
}

/// How `rule` fares against the entry with relative path `relative`.
pub open spec fn rule_outcome(rule: Seq<char>, relative: Seq<char>) -> RuleOutcome {
    let pattern = rule_pattern(rule);
    outcome_of(searched(pattern, relative), searched(pattern, rooted_form(relative)))
}

/// Whether `rule` matches the entry with relative path `relative`, in one of
/// its two forms.
pub open spec fn rule_hits(rule: Seq<char>, relative: Seq<char>) -> bool {
    let pattern = rule_pattern(rule);
    pattern_found_in(pattern, relative) || pattern_found_in(pattern, rooted_form(relative))
}

/// Whether `rules` exclude the entry with relative path `relative`: the
/// first rule that does not pass decides.
pub open spec fn verdict(rules: Seq<Seq<char>>, relative: Seq<char>) -> Result<
    bool,
    IgnoreErrorView,
>
    decreases rules.len(),
{
    if rules.len() == 0 {
        Ok(false)
    } else {
        match rule_outcome(rules[0], relative) {
            RuleOutcome::Matched => Ok(true),
            RuleOutcome::Malformed => Err(
                IgnoreErrorView::InvalidIgnorePattern { pattern: rules[0] },
            ),
            RuleOutcome::Passed => verdict(rules.skip(1), relative),
        }
    }
}

/// Whether `rules` exclude the entry at `path` from a walk of `root`.
pub open spec fn ignored(path: Seq<char>, rules: Seq<Seq<char>>, root: Seq<char>) -> Result<
    bool,
    IgnoreErrorView,
> {
    match stripped(path, root) {
        Some(relative) => verdict(rules, relative),
        None => Err(IgnoreErrorView::PathPrefixError),
    }
}

/// The mathematical value of what [`should_ignore`] returns.
pub open spec fn verdict_view(r: Result<bool, IgnoreError>) -> Result<bool, IgnoreErrorView> {
    match r {
        Ok(excluded) => Ok(excluded),
        Err(e) => Err(e@),
    }
}

/// Whether every one of `rules` is a valid regular expression.
pub open spec fn all_compile(rules: Seq<Seq<char>>) -> bool {
    forall|i: int| 0 <= i < rules.len() ==> pattern_compiles(rule_pattern(#[trigger] rules[i]))
}

/// Whether one of `rules` matches the entry with relative path `relative`,
/// in one of its two forms.
pub open spec fn some_rule_hits(rules: Seq<Seq<char>>, relative: Seq<char>) -> bool {
    exists|i: int| 0 <= i < rules.len() && rule_hits(#[trigger] rules[i], relative)
}

/// Where every rule compiles, an entry is excluded exactly if some rule
/// matches its relative path or its rooted form.
pub proof fn lemma_verdict_of_valid_rules(rules: Seq<Seq<char>>, relative: Seq<char>)
    requires
        all_compile(rules),
    ensures
        verdict(rules, relative) == Ok::<bool, IgnoreErrorView>(some_rule_hits(rules, relative)),
    decreases rules.len(),
{
    if rules.len() > 0 {
        let rest = rules.skip(1);
        assert(all_compile(rest)) by {
            assert forall|i: int| 0 <= i < rest.len() implies pattern_compiles(
                rule_pattern(#[trigger] rest[i]),
            ) by {
                assert(rest[i] == rules[i + 1]);
            }
        }
        lemma_verdict_of_valid_rules(rest, relative);
        assert(pattern_compiles(rule_pattern(rules[0])));
        if rule_hits(rules[0], relative) {
        } else if some_rule_hits(rest, relative) {
            let i = choose|i: int| 0 <= i < rest.len() && rule_hits(#[trigger] rest[i], relative);
            assert(rest[i] == rules[i + 1]);
        } else {
            assert forall|i: int| 0 <= i < rules.len() implies !rule_hits(
                #[trigger] rules[i],
                relative,
            ) by {
                if i > 0 {
                    assert(rest[i - 1] == rules[i]);
                }
            }
        }
    }
}

/// A rule that does not compile, with only passing rules before it, has the
/// entry rejected with that rule; a rule that matches, with only passing
/// rules before it, has the entry excluded.
pub proof fn lemma_verdict_first_decides(rules: Seq<Seq<char>>, relative: Seq<char>, at: int)
    requires
        0 <= at < rules.len(),
        forall|i: int| 0 <= i < at ==> rule_outcome(#[trigger] rules[i], relative) == RuleOutcome::Passed,
    ensures
        verdict(rules, relative) == match rule_outcome(rules[at], relative) {
            RuleOutcome::Matched => Ok::<bool, IgnoreErrorView>(true),
            RuleOutcome::Malformed => Err(
                IgnoreErrorView::InvalidIgnorePattern { pattern: rules[at] },
            ),
            RuleOutcome::Passed => verdict(rules.skip(at + 1), relative),
        },
    decreases at,
{
    if at == 0 {
    } else {
        let rest = rules.skip(1);
        assert(rules[0] == rules[0]);
        assert forall|i: int| 0 <= i < at - 1 implies rule_outcome(
            #[trigger] rest[i],
            relative,
        ) == RuleOutcome::Passed by {
            assert(rest[i] == rules[i + 1]);
        }
        lemma_verdict_first_decides(rest, relative, at - 1);
        assert(rest[at - 1] == rules[at]);
        assert(rest.skip(at) == rules.skip(at + 1));
    }
}

/// Gives the outcome of a rule from what the searches in the relative and in
/// the rooted form of an entry returned; `None` stands for a pattern that did
/// not compile.
pub fn classify(relative: Option<bool>, rooted: Option<bool>) -> (outcome: RuleOutcome)
    ensures
        outcome == outcome_of(relative, rooted),
{
    match relative {
        Some(true) => RuleOutcome::Matched,
        Some(false) => match rooted {
            Some(true) => RuleOutcome::Matched,
            Some(false) => RuleOutcome::Passed,
            None => RuleOutcome::Malformed,
        },
        None => RuleOutcome::Malformed,
    }
}

/// Searches for `pattern` in `haystack`, forgetting why a pattern did not compile.
fn find(pattern: &str, haystack: &str) -> (found: Option<bool>)
    ensures
        found == searched(pattern@, haystack@),
{
    match search(pattern, haystack) {
        Ok(hit) => Some(hit),
        Err(_) => None,
    }
}

/// Tries `rule` on an entry, given in its relative and in its rooted form.
fn try_rule(rule: &str, relative: &str, rooted: &str) -> (outcome: RuleOutcome)
    requires
        rooted@ == rooted_form(relative@),
    ensures
        outcome == rule_outcome(rule@, relative@),
{
    let len: usize = rule.unicode_len();
    let pattern: &str = if len > 0 && rule.get_char(len - 1) == '/' {
        let cut = rule.substring_char(0, len - 1);
        assert(cut@ == rule@.drop_last());
        cut
    } else {
        rule
    };
    classify(find(pattern, relative), find(pattern, rooted))
}

/// Decides whether `ignore_files`, the rules of a walk of `root`, exclude `entry`.
///
/// The entry's path is taken relative to `root`; an entry that does not lie
/// under `root` is rejected. The rules are tried in order, each on the
/// relative path and on its rooted form, and the first rule that matches or
/// is malformed decides: a match excludes the entry, a malformed rule is an
/// error that names the rule. So where every rule is valid, the entry is
/// excluded exactly if some rule matches one of its two forms.
pub fn should_ignore(entry: &DirectoryEntry, ignore_files: &Vec<String>, root: &str) -> (r: Result<
    bool,
    IgnoreError,
>)
    ensures
        verdict_view(r) == ignored(entry.absolute_path@, ignore_files.deep_view(), root@),
        stripped(entry.absolute_path@, root@) is None ==> r == Err::<bool, IgnoreError>(
            IgnoreError::PathPrefixError,
        ),
        all_compile(ignore_files.deep_view()) ==> (stripped(entry.absolute_path@, root@) matches Some(
            relative,
        ) ==> r == Ok::<bool, IgnoreError>(some_rule_hits(ignore_files.deep_view(), relative))),
{
    proof {
        if let Some(relative) = stripped(entry.absolute_path@, root@) {
            if all_compile(ignore_files.deep_view()) {
                lemma_verdict_of_valid_rules(ignore_files.deep_view(), relative);
            }
        }
    }
    let relative: String = match strip_prefix(entry.absolute_path.as_str(), root) {
        Some(rest) => rest,
        None => {
            return Err(IgnoreError::PathPrefixError);
        },
    };
    proof {
        reveal_strlit("/");
    }
    let mut rooted: String = "/".to_owned();
    rooted.append(relative.as_str());
    let ghost rules = ignore_files.deep_view();
    let mut i: usize = 0;
    while i < ignore_files.len()
        invariant
            i <= ignore_files.len(),
            rules == ignore_files.deep_view(),
            stripped(entry.absolute_path@, root@) == Some(relative@),
            rooted@ == rooted_form(relative@),
            forall|j: int|
                0 <= j < i ==> rule_outcome(#[trigger] rules[j], relative@) == RuleOutcome::Passed,
        decreases ignore_files.len() - i,
    {
        let rule: &String = &ignore_files[i];
        assert(rules[i as int] == rule@);
        proof {
            lemma_verdict_first_decides(rules, relative@, i as int);
        }
        match try_rule(rule.as_str(), relative.as_str(), rooted.as_str()) {
            RuleOutcome::Matched => {
                return Ok(true);
            },
            RuleOutcome::Malformed => {
                return Err(IgnoreError::InvalidIgnorePattern { pattern: rule.clone() });
            },
            RuleOutcome::Passed => {},
        }
        i = i + 1;
    }
    proof {
        if rules.len() > 0 {
            lemma_verdict_first_decides(rules, relative@, rules.len() - 1);
            assert(rules.skip(rules.len() as int).len() == 0);
        }
    }
    Ok(false)
}

} // verus!
