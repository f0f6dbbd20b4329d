//! Commit risk scoring: risk flags from changed paths, change-type tags from
//! the message and paths, an impact score, hotspot files and explanations.
use vstd::prelude::*;

use crate::normalize::strings_view;
use crate::text::{
    contains, ends_with, seq_contains, seq_ends_with, seq_starts_with, starts_with, str_eq,
    to_unicode_lower, unicode_lower,
};

verus! {

/// One commit as handed to the scorer.
#[derive(Debug, Clone)]
pub struct Input {
    pub commit_message: String,
    pub files_changed: Vec<String>,
    pub additions: u32,
    pub deletions: u32,
    pub diff_text: Option<String>,
}

/// The scorer's verdict on a commit.
#[derive(Debug, Clone)]
pub struct Output {
    pub impact_score: u8,
    pub risk_flags: Vec<String>,
    pub change_type_tags: Vec<String>,
    pub hotspot_files: Vec<String>,
    pub explanations: Vec<String>,
}

/// Which risk flags a path raises.
#[derive(Debug, Clone, Copy, PartialEq, Eq, Structural)]
pub struct RiskMarks {
    pub auth: bool,
    pub config: bool,
    pub deps: bool,
    pub migration: bool,
    pub payment: bool,
    pub secrets: bool,
}

/// The risk flags a lowercased path raises.
pub open spec fn marks_of(p: Seq<char>) -> RiskMarks {
    RiskMarks {
        deps: seq_contains(p, "package-lock.json"@) || seq_contains(p, "yarn.lock"@) || seq_contains(
            p,
            "cargo.lock"@,
        ) || seq_ends_with(p, "go.sum"@) || seq_ends_with(p, "go.mod"@) || seq_contains(
            p,
            "pnpm-lock"@,
        ),
        migration: seq_contains(p, "migration"@) || seq_contains(p, "schema"@) || seq_contains(
            p,
            "prisma"@,
        ) || seq_contains(p, "/migrations/"@),
        auth: seq_contains(p, "auth"@) || seq_contains(p, "jwt"@) || seq_contains(p, "oauth"@)
            || seq_contains(p, "session"@) || seq_contains(p, "/acl"@) || seq_contains(
            p,
            "permission"@,
        ),
        config: seq_contains(p, ".env"@) || seq_contains(p, "config"@) || seq_contains(
            p,
            "secrets"@,
        ) || seq_contains(p, "keys"@) || seq_contains(p, "credential"@),
        secrets: seq_contains(p, "secret"@) || seq_contains(p, "password"@) || seq_contains(
            p,
            "api_key"@,
        ) || seq_contains(p, "apikey"@),
        payment: seq_contains(p, "payment"@) || seq_contains(p, "stripe"@) || seq_contains(
            p,
            "billing"@,
        ) || seq_contains(p, "invoice"@),
    }
}

/// Flags raised by either.
pub open spec fn marks_or(a: RiskMarks, b: RiskMarks) -> RiskMarks {
    RiskMarks {
        auth: a.auth || b.auth,
        config: a.config || b.config,
        deps: a.deps || b.deps,
        migration: a.migration || b.migration,
        payment: a.payment || b.payment,
        secrets: a.secrets || b.secrets,
    }
}

/// No flag raised.
pub open spec fn no_marks() -> RiskMarks {
    RiskMarks {
        auth: false,
        config: false,
        deps: false,
        migration: false,
        payment: false,
        secrets: false,
    }
}

/// Flags raised by any of the files, each lowercased.
pub open spec fn files_marks(files: Seq<Seq<char>>) -> RiskMarks
    decreases files.len(),
{
    if files.len() == 0 {
        no_marks()
    } else {
        marks_or(files_marks(files.drop_last()), marks_of(unicode_lower(files.last())))
    }
}

/// `name` if `on`, else nothing.
pub open spec fn named(on: bool, name: Seq<char>) -> Seq<Seq<char>> {
    if on {
        seq![name]
    } else {
        Seq::empty()
    }
}

/// Names of the raised flags, in alphabetical order.
pub open spec fn flag_names(m: RiskMarks) -> Seq<Seq<char>> {
    named(m.auth, "auth"@) + named(m.config, "config"@) + named(m.deps, "deps"@) + named(
        m.migration,
        "migration"@,
    ) + named(m.payment, "payment"@) + named(m.secrets, "secrets"@)
}

/// The risk flags of one lowercased path.
pub fn path_risk_marks(p: &str) -> (r: RiskMarks)
    ensures
        r == marks_of(p@),
{
    RiskMarks {
        deps: contains(p, "package-lock.json") || contains(p, "yarn.lock") || contains(
            p,
            "cargo.lock",
        ) || ends_with(p, "go.sum") || ends_with(p, "go.mod") || contains(p, "pnpm-lock"),
        migration: contains(p, "migration") || contains(p, "schema") || contains(p, "prisma")
            || contains(p, "/migrations/"),
        auth: contains(p, "auth") || contains(p, "jwt") || contains(p, "oauth") || contains(
            p,
            "session",
        ) || contains(p, "/acl") || contains(p, "permission"),
        config: contains(p, ".env") || contains(p, "config") || contains(p, "secrets")
            || contains(p, "keys") || contains(p, "credential"),
        secrets: contains(p, "secret") || contains(p, "password") || contains(p, "api_key")
            || contains(p, "apikey"),
        payment: contains(p, "payment") || contains(p, "stripe") || contains(p, "billing")
            || contains(p, "invoice"),
    }
}

fn push_if(v: &mut Vec<String>, on: bool, name: &str)
    ensures
        strings_view(final(v)@) == strings_view(old(v)@) + named(on, name@),
{
    if on {
        v.push(String::from_str(name));
    }
    assert(strings_view(v@) =~= strings_view(old(v)@) + named(on, name@));
}

/// Risk flags of the changed files, from their lowercased paths; each flag
/// once, in alphabetical order.
pub fn compute_risk_flags(files: &[String]) -> (r: Vec<String>)
    ensures
        strings_view(r@) == flag_names(files_marks(strings_view(files@))),
{
    let mut m = RiskMarks {
        auth: false,
        config: false,
        deps: false,
        migration: false,
        payment: false,
        secrets: false,
    };
    let mut i: usize = 0;
    while i < files.len()
        invariant
            i <= files@.len(),
            m == files_marks(strings_view(files@.subrange(0, i as int))),
        decreases files@.len() - i,
    {
        let p = to_unicode_lower(files[i].as_str());
        let k = path_risk_marks(p.as_str());
        proof {
            let s = strings_view(files@.subrange(0, i + 1));
            assert(s.drop_last() =~= strings_view(files@.subrange(0, i as int)));
            assert(s.last() == files@[i as int]@);
        }
        m = RiskMarks {
            auth: m.auth || k.auth,
            config: m.config || k.config,
            deps: m.deps || k.deps,
            migration: m.migration || k.migration,
            payment: m.payment || k.payment,
            secrets: m.secrets || k.secrets,
        };
        i += 1;
    }
    assert(files@.subrange(0, files@.len() as int) =~= files@);
    let mut v: Vec<String> = Vec::new();
    push_if(&mut v, m.auth, "auth");
    push_if(&mut v, m.config, "config");
    push_if(&mut v, m.deps, "deps");
    push_if(&mut v, m.migration, "migration");
    push_if(&mut v, m.payment, "payment");
    push_if(&mut v, m.secrets, "secrets");
    assert(strings_view(v@) =~= flag_names(m));
    v
}

/// Which change types a commit shows.
#[derive(Debug, Clone, Copy, PartialEq, Eq, Structural)]
pub struct ChangeKinds {
    pub bugfix: bool,
    pub chore: bool,
    pub docs: bool,
    pub feature: bool,
    pub refactor: bool,
    pub tests: bool,
}

/// Change types named by a lowercased commit message.
pub open spec fn message_kinds(m: Seq<char>) -> ChangeKinds {
    ChangeKinds {
        feature: seq_starts_with(m, "feat"@) || seq_contains(m, "feature"@),
        bugfix: seq_starts_with(m, "fix"@) || seq_contains(m, "bugfix"@) || seq_contains(
            m,
            "bug fix"@,
        ),
        refactor: seq_starts_with(m, "refactor"@) || seq_contains(m, "refactor"@),
        docs: seq_starts_with(m, "docs"@) || seq_contains(m, "readme"@) || seq_contains(
            m,
            "documentation"@,
        ),
        tests: seq_starts_with(m, "test"@) || seq_contains(m, "test:"@) || seq_contains(
            m,
            "tests"@,
        ),
        chore: seq_starts_with(m, "chore"@) || seq_contains(m, "chore:"@),
    }
}

/// Change types shown by a lowercased path: tests or docs.
pub open spec fn path_kinds(p: Seq<char>) -> ChangeKinds {
    ChangeKinds {
        feature: false,
        bugfix: false,
        refactor: false,
        chore: false,
        tests: seq_contains(p, "/test"@) || seq_contains(p, "_test."@) || seq_contains(p, ".test."@)
            || seq_contains(p, "/tests/"@) || seq_contains(p, "/spec"@),
        docs: seq_contains(p, "/doc"@) || seq_contains(p, "readme"@) || seq_ends_with(p, ".md"@),
    }
}

/// Change types shown by either.
pub open spec fn kinds_or(a: ChangeKinds, b: ChangeKinds) -> ChangeKinds {
    ChangeKinds {
        bugfix: a.bugfix || b.bugfix,
        chore: a.chore || b.chore,
        docs: a.docs || b.docs,
        feature: a.feature || b.feature,
        refactor: a.refactor || b.refactor,
        tests: a.tests || b.tests,
    }
}

/// Change types of a message and its files, each lowercased.
pub open spec fn commit_kinds(message: Seq<char>, files: Seq<Seq<char>>) -> ChangeKinds
    decreases files.len(),
{
    if files.len() == 0 {
        message_kinds(unicode_lower(message))
    } else {
        kinds_or(commit_kinds(message, files.drop_last()), path_kinds(unicode_lower(files.last())))
    }
}

/// Names of the change types shown, in alphabetical order.
pub open spec fn kind_names(k: ChangeKinds) -> Seq<Seq<char>> {
    named(k.bugfix, "bugfix"@) + named(k.chore, "chore"@) + named(k.docs, "docs"@) + named(
        k.feature,
        "feature"@,
    ) + named(k.refactor, "refactor"@) + named(k.tests, "tests"@)
}

/// Change types named by one lowercased commit message.
pub fn message_change_kinds(m: &str) -> (r: ChangeKinds)
    ensures
        r == message_kinds(m@),
{
    ChangeKinds {
        feature: starts_with(m, "feat") || contains(m, "feature"),
        bugfix: starts_with(m, "fix") || contains(m, "bugfix") || contains(m, "bug fix"),
        refactor: starts_with(m, "refactor") || contains(m, "refactor"),
        docs: starts_with(m, "docs") || contains(m, "readme") || contains(m, "documentation"),
        tests: starts_with(m, "test") || contains(m, "test:") || contains(m, "tests"),
        chore: starts_with(m, "chore") || contains(m, "chore:"),
    }
}

/// Change types shown by one lowercased path.
pub fn path_change_kinds(p: &str) -> (r: ChangeKinds)
    ensures
        r == path_kinds(p@),
{
    ChangeKinds {
        feature: false,
        bugfix: false,
        refactor: false,
        chore: false,
        tests: contains(p, "/test") || contains(p, "_test.") || contains(p, ".test.") || contains(
            p,
            "/tests/",
        ) || contains(p, "/spec"),
        docs: contains(p, "/doc") || contains(p, "readme") || ends_with(p, ".md"),
    }
}

/// Change-type tags of a commit from its lowercased message and paths; each
/// tag once, in alphabetical order.
pub fn compute_change_type_tags(commit_message: &str, files: &[String]) -> (r: Vec<String>)
    ensures
        strings_view(r@) == kind_names(commit_kinds(commit_message@, strings_view(files@))),
{
    let msg = to_unicode_lower(commit_message);
    let mut k = message_change_kinds(msg.as_str());
    let mut i: usize = 0;
    proof {
        assert(strings_view(files@.subrange(0, 0)) =~= Seq::<Seq<char>>::empty());
    }
    while i < files.len()
        invariant
            i <= files@.len(),
            k == commit_kinds(commit_message@, strings_view(files@.subrange(0, i as int))),
        decreases files@.len() - i,
    {
        let p = to_unicode_lower(files[i].as_str());
        let q = path_change_kinds(p.as_str());
        proof {
            let s = strings_view(files@.subrange(0, i + 1));
            assert(s.drop_last() =~= strings_view(files@.subrange(0, i as int)));
            assert(s.last() == files@[i as int]@);
        }
        k = ChangeKinds {
            bugfix: k.bugfix || q.bugfix,
            chore: k.chore || q.chore,
            docs: k.docs || q.docs,
            feature: k.feature || q.feature,
            refactor: k.refactor || q.refactor,
            tests: k.tests || q.tests,
        };
        i += 1;
    }
    assert(files@.subrange(0, files@.len() as int) =~= files@);
    let mut v: Vec<String> = Vec::new();
    push_if(&mut v, k.bugfix, "bugfix");
    push_if(&mut v, k.chore, "chore");
    push_if(&mut v, k.docs, "docs");
    push_if(&mut v, k.feature, "feature");
    push_if(&mut v, k.refactor, "refactor");
    push_if(&mut v, k.tests, "tests");
    assert(strings_view(v@) =~= kind_names(k));
    v
}

/// Impact points a risk flag adds.
pub open spec fn flag_points(f: Seq<char>) -> int {
    if f == "auth"@ || f == "secrets"@ || f == "payment"@ {
        15
    } else if f == "migration"@ || f == "config"@ {
        10
    } else if f == "deps"@ {
        5
    } else {
        0
    }
}

/// Impact points of all the flags.
pub open spec fn flags_points(flags: Seq<Seq<char>>) -> int
    decreases flags.len(),
{
    if flags.len() == 0 {
        0
    } else {
        flags_points(flags.drop_last()) + flag_points(flags.last())
    }
}

/// `min(a, b)`.
pub open spec fn min_int(a: int, b: int) -> int {
    if a < b {
        a
    } else {
        b
    }
}

/// Impact score: twice the number of files (at most 30 of them), plus a
/// tenth of the changed lines (at most 40), plus the flags' points; at most 100.
pub open spec fn impact_of(n_files: int, additions: int, deletions: int, flags: Seq<Seq<char>>) -> int {
    min_int(
        100,
        2 * min_int(n_files, 30) + min_int((additions + deletions) / 10, 40) + flags_points(flags),
    )
}

fn flag_points_of(f: &str) -> (r: u64)
    ensures
        r == flag_points(f@),
{
    if str_eq(f, "auth") || str_eq(f, "secrets") || str_eq(f, "payment") {
        15
    } else if str_eq(f, "migration") || str_eq(f, "config") {
        10
    } else if str_eq(f, "deps") {
        5
    } else {
        0
    }
}

proof fn lemma_flags_points_nonneg(flags: Seq<Seq<char>>)
    ensures
        flags_points(flags) >= 0,
    decreases flags.len(),
{
    if flags.len() > 0 {
        lemma_flags_points_nonneg(flags.drop_last());
    }
}

/// Impact score of a commit in 0..=100; see `impact_of`.
pub fn compute_impact_score(input: &Input, risk_flags: &[String]) -> (r: u8)
    ensures
        r == impact_of(
            input.files_changed@.len() as int,
            input.additions as int,
            input.deletions as int,
            strings_view(risk_flags@),
        ),
{
    let n = input.files_changed.len();
    let file_factor: u64 = if n < 30 {
        2 * n as u64
    } else {
        60
    };
    let churn: u64 = input.additions as u64 + input.deletions as u64;
    let churn_factor: u64 = if churn / 10 < 40 {
        churn / 10
    } else {
        40
    };
    let base: u64 = file_factor + churn_factor;
    let mut score: u64 = base;
    let mut i: usize = 0;
    assert(strings_view(risk_flags@.subrange(0, 0)) =~= Seq::<Seq<char>>::empty());
    while i < risk_flags.len()
        invariant
            i <= risk_flags@.len(),
            base <= 100,
            score == min_int(
                100,
                base + flags_points(strings_view(risk_flags@.subrange(0, i as int))),
            ),
        decreases risk_flags@.len() - i,
    {
        let pts = flag_points_of(risk_flags[i].as_str());
        proof {
            let s = strings_view(risk_flags@.subrange(0, i + 1));
            assert(s.drop_last() =~= strings_view(risk_flags@.subrange(0, i as int)));
            assert(s.last() == risk_flags@[i as int]@);
            lemma_flags_points_nonneg(strings_view(risk_flags@.subrange(0, i as int)));
        }
        score = if score + pts > 100 {
            100
        } else {
            score + pts
        };
        i += 1;
    }
    assert(risk_flags@.subrange(0, risk_flags@.len() as int) =~= risk_flags@);
    proof {
        lemma_flags_points_nonneg(strings_view(risk_flags@));
    }
    score as u8
}

/// The first `n` changed files, in order.
pub fn compute_hotspot_files(files: &[String], n: usize) -> (r: Vec<String>)
    ensures
        strings_view(r@) == strings_view(files@).take(min_int(files@.len() as int, n as int)),
{
    let k: usize = if files.len() < n {
        files.len()
    } else {
        n
    };
    let mut v: Vec<String> = Vec::new();
    let mut i: usize = 0;
    while i < k
        invariant
            k <= files@.len(),
            i <= k,
            v@.len() == i,
            forall|j: int| 0 <= j < i ==> (#[trigger] v@[j])@ == files@[j]@,
        decreases k - i,
    {
        v.push(files[i].clone());
        i += 1;
    }
    assert(strings_view(v@) =~= strings_view(files@).take(k as int));
    v
}

/// The explanation of a risk flag, if it has one.
pub open spec fn flag_explanation(f: Seq<char>) -> Seq<Seq<char>> {
    if f == "deps"@ {
        seq!["Touched dependency lockfiles or package manifests"@]
    } else if f == "migration"@ {
        seq!["Schema or migration changes"@]
    } else if f == "auth"@ {
        seq!["Auth or permission-related files changed"@]
    } else if f == "config"@ {
        seq!["Config or environment-related files changed"@]
    } else if f == "secrets"@ {
        seq!["Possible secrets or credentials area"@]
    } else if f == "payment"@ {
        seq!["Payment or billing-related code changed"@]
    } else {
        Seq::empty()
    }
}

/// Explanations of the flags, in order.
pub open spec fn flags_explained(flags: Seq<Seq<char>>) -> Seq<Seq<char>>
    decreases flags.len(),
{
    if flags.len() == 0 {
        Seq::empty()
    } else {
        flags_explained(flags.drop_last()) + flag_explanation(flags.last())
    }
}

/// Explanations: one per explained flag, then one each if tests or docs changed.
pub open spec fn explanations_of(flags: Seq<Seq<char>>, tags: Seq<Seq<char>>) -> Seq<Seq<char>> {
    flags_explained(flags) + named(tags.contains("tests"@), "Test files changed"@) + named(
        tags.contains("docs"@),
        "Documentation changed"@,
    )
}

fn explain_flag(v: &mut Vec<String>, f: &str)
    ensures
        strings_view(final(v)@) == strings_view(old(v)@) + flag_explanation(f@),
{
    if str_eq(f, "deps") {
        v.push(String::from_str("Touched dependency lockfiles or package manifests"));
    } else if str_eq(f, "migration") {
        v.push(String::from_str("Schema or migration changes"));
    } else if str_eq(f, "auth") {
        v.push(String::from_str("Auth or permission-related files changed"));
    } else if str_eq(f, "config") {
        v.push(String::from_str("Config or environment-related files changed"));
    } else if str_eq(f, "secrets") {
        v.push(String::from_str("Possible secrets or credentials area"));
    } else if str_eq(f, "payment") {
        v.push(String::from_str("Payment or billing-related code changed"));
    }
    assert(strings_view(v@) =~= strings_view(old(v)@) + flag_explanation(f@));
}

fn has_tag(tags: &[String], t: &str) -> (r: bool)
    ensures
        r == strings_view(tags@).contains(t@),
{
    let mut i: usize = 0;
    while i < tags.len()
        invariant
            i <= tags@.len(),
            forall|j: int| 0 <= j < i ==> (#[trigger] tags@[j])@ != t@,
        decreases tags@.len() - i,
    {
        if str_eq(tags[i].as_str(), t) {
            assert(strings_view(tags@)[i as int] == t@);
            return true;
        }
        i += 1;
    }
    assert forall|j: int| 0 <= j < tags@.len() implies #[trigger] strings_view(tags@)[j] != t@ by {
        assert(strings_view(tags@)[j] == tags@[j]@);
    }
    false
}

/// Short human-readable reasons for the flags and tags.
pub fn compute_explanations(risk_flags: &[String], change_type_tags: &[String]) -> (r: Vec<String>)
    ensures
        strings_view(r@) == explanations_of(strings_view(risk_flags@), strings_view(change_type_tags@)),
{
    let mut out: Vec<String> = Vec::new();
    let mut i: usize = 0;
    while i < risk_flags.len()
        invariant
            i <= risk_flags@.len(),
            strings_view(out@) == flags_explained(strings_view(risk_flags@.subrange(0, i as int))),
        decreases risk_flags@.len() - i,
    {
        explain_flag(&mut out, risk_flags[i].as_str());
        proof {
            let s = strings_view(risk_flags@.subrange(0, i + 1));
            assert(s.drop_last() =~= strings_view(risk_flags@.subrange(0, i as int)));
            assert(s.last() == risk_flags@[i as int]@);
        }
        i += 1;
    }
    assert(risk_flags@.subrange(0, risk_flags@.len() as int) =~= risk_flags@);
    let t = has_tag(change_type_tags, "tests");
    push_if(&mut out, t, "Test files changed");
    let d = has_tag(change_type_tags, "docs");
    push_if(&mut out, d, "Documentation changed");
    out
}

/// Scores one commit: flags, tags, impact, the first ten files as hotspots, explanations.
pub fn run(input: &Input) -> (r: Output)
    ensures
        strings_view(r.risk_flags@) == flag_names(files_marks(strings_view(input.files_changed@))),
        strings_view(r.change_type_tags@) == kind_names(
            commit_kinds(input.commit_message@, strings_view(input.files_changed@)),
        ),
        r.impact_score == impact_of(
            input.files_changed@.len() as int,
            input.additions as int,
            input.deletions as int,
            strings_view(r.risk_flags@),
        ),
        strings_view(r.hotspot_files@) == strings_view(input.files_changed@).take(
            min_int(input.files_changed@.len() as int, 10),
        ),
        strings_view(r.explanations@) == explanations_of(
            strings_view(r.risk_flags@),
            strings_view(r.change_type_tags@),
        ),
{
    let risk_flags = compute_risk_flags(input.files_changed.as_slice());
    let change_type_tags = compute_change_type_tags(
        input.commit_message.as_str(),
        input.files_changed.as_slice(),
    );
    let impact_score = compute_impact_score(input, risk_flags.as_slice());
    let hotspot_files = compute_hotspot_files(input.files_changed.as_slice(), 10);
    let explanations = compute_explanations(risk_flags.as_slice(), change_type_tags.as_slice());
    Output { impact_score, risk_flags, change_type_tags, hotspot_files, explanations }
}

} // verus!
