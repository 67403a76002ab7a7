//! Risk scores and verdicts.

use crate::schema::{
    verdict_name, GradingThresholds, PolicyDoc, PolicyModel, RequestModel, SpellRequest, Verdict,
};
use crate::text::{
    contains, contains_sub, find, find_from, lower_seq, lowered, parse_number, parse_unsigned,
    same_chars, slice_chars, texts, to_chars, trim, trimmed,
};
use vstd::prelude::*;

verus! {

/// A risk score and the verdict that the thresholds give it.
#[derive(Debug, Clone)]
pub struct GradeOutcome {
    pub risk_score: u32,
    pub verdict: String,
}

/// The command reaches for the network: in any mix of cases it holds
/// `curl `, `wget `, `http://` or `https://`.
pub open spec fn net_intent(cmd: Seq<char>) -> bool {
    let l = lower_seq(cmd);
    contains_sub(l, "curl "@) || contains_sub(l, "wget "@) || contains_sub(l, "http://"@)
        || contains_sub(l, "https://"@)
}

/// The command holds `ssh ` in any mix of cases.
pub open spec fn ssh_intent(cmd: Seq<char>) -> bool {
    contains_sub(lower_seq(cmd), "ssh "@)
}

/// Some entry asks for more of the filesystem than `/tmp/**`.
pub open spec fn broad_fs(allow_fs: Seq<Seq<char>>) -> bool {
    exists|i: int| 0 <= i < allow_fs.len() && #[trigger] allow_fs[i] != "/tmp/**"@
}

/// Neither the request nor the policy grants any network entry.
pub open spec fn no_net_grant(req: RequestModel, policy: PolicyModel) -> bool {
    req.allow_net.len() == 0 && policy.net_allow.len() == 0
}

/// The points that each finding adds to the risk.
pub const NET_POINTS: u32 = 40;

pub const SSH_POINTS: u32 = 30;

pub const FS_POINTS: u32 = 20;

/// The largest risk score.
pub const MAX_RISK: u32 = 100;

/// The risk of a request under a policy: 40 for reaching for the network
/// without a grant, 30 for `ssh `, 20 for a filesystem entry beyond
/// `/tmp/**`; their sum, and never more than 100.
pub open spec fn risk_of(req: RequestModel, policy: PolicyModel) -> int {
    let net: int = if net_intent(req.cmd) && no_net_grant(req, policy) {
        40
    } else {
        0
    };
    let ssh: int = if ssh_intent(req.cmd) {
        30
    } else {
        0
    };
    let fs: int = if broad_fs(req.allow_fs) {
        20
    } else {
        0
    };
    if net + ssh + fs > 100 {
        100
    } else {
        net + ssh + fs
    }
}

/// Whether the command reaches for the network.
pub fn has_net_intent(cmd: &str) -> (b: bool)
    ensures
        b == net_intent(cmd@),
{
    let chars = to_chars(cmd);
    let l = lowered(chars.as_slice());
    let curl = to_chars("curl ");
    let wget = to_chars("wget ");
    let http = to_chars("http://");
    let https = to_chars("https://");
    contains(l.as_slice(), curl.as_slice()) || contains(l.as_slice(), wget.as_slice()) || contains(
        l.as_slice(),
        http.as_slice(),
    ) || contains(l.as_slice(), https.as_slice())
}

/// Whether the command holds `ssh `.
pub fn has_ssh_intent(cmd: &str) -> (b: bool)
    ensures
        b == ssh_intent(cmd@),
{
    let chars = to_chars(cmd);
    let l = lowered(chars.as_slice());
    let ssh = to_chars("ssh ");
    contains(l.as_slice(), ssh.as_slice())
}

/// Whether some entry asks for more of the filesystem than `/tmp/**`.
pub fn has_broad_fs(allow_fs: &Vec<String>) -> (b: bool)
    ensures
        b == broad_fs(texts(allow_fs@)),
{
    let tmp = to_chars("/tmp/**");
    let mut i: usize = 0;
    while i < allow_fs.len()
        invariant
            i <= allow_fs@.len(),
            tmp@ == "/tmp/**"@,
            forall|j: int| 0 <= j < i ==> (#[trigger] texts(allow_fs@)[j]) == "/tmp/**"@,
        decreases allow_fs@.len() - i,
    {
        let entry = to_chars(allow_fs[i].as_str());
        assert(texts(allow_fs@)[i as int] == entry@);
        if !same_chars(entry.as_slice(), tmp.as_slice()) {
            return true;
        }
        i += 1;
    }
    false
}

/// The risk score of a request under a policy.
pub fn risk_score(req: &SpellRequest, policy: &PolicyDoc) -> (score: u32)
    ensures
        score == risk_of(req@, policy@),
        score <= MAX_RISK,
{
    let mut score: u32 = 0;
    let intent: bool = match &req.cmd {
        Some(c) => has_net_intent(c.as_str()),
        None => {
            let empty = String::new();
            has_net_intent(empty.as_str())
        },
    };
    let granted: bool = match &req.allow_net {
        Some(l) => l.len() > 0,
        None => false,
    } || policy.capabilities.net.allow.len() > 0;
    assert(granted == !no_net_grant(req@, policy@));
    if intent && !granted {
        score = score + NET_POINTS;
    }
    let ssh: bool = match &req.cmd {
        Some(c) => has_ssh_intent(c.as_str()),
        None => {
            let empty = String::new();
            has_ssh_intent(empty.as_str())
        },
    };
    if ssh {
        score = score + SSH_POINTS;
    }
    let broad: bool = match &req.allow_fs {
        Some(l) => has_broad_fs(l),
        None => false,
    };
    proof {
        if req.allow_fs is None {
            assert(!broad_fs(req@.allow_fs));
        }
    }
    if broad {
        score = score + FS_POINTS;
    }
    if score > MAX_RISK {
        score = MAX_RISK;
    }
    score
}

/// A range of risk scores.
#[derive(Debug, Clone, Copy)]
pub enum RangeExpr {
    /// `<=N`
    AtMost(u32),
    /// `>=N`
    AtLeast(u32),
    /// `A..=B`
    Between(u32, u32),
}

/// The three characters between the bounds of `A..=B`.
pub open spec fn dots() -> Seq<char> {
    seq!['.', '.', '=']
}

/// A bound: a decimal number that fits thirty-two bits, white space
/// around it left off.
pub open spec fn bound(s: Seq<char>) -> Option<int> {
    parse_unsigned(trim(s), 0xffff_ffff)
}

/// The range that an expression writes; none where it is malformed.
pub open spec fn parse_range(expr: Seq<char>) -> Option<RangeExpr> {
    let e = trim(expr);
    if e.len() >= 2 && e[0] == '<' && e[1] == '=' {
        match bound(e.skip(2)) {
            Some(v) => Some(RangeExpr::AtMost(v as u32)),
            None => None,
        }
    } else if e.len() >= 2 && e[0] == '>' && e[1] == '=' {
        match bound(e.skip(2)) {
            Some(v) => Some(RangeExpr::AtLeast(v as u32)),
            None => None,
        }
    } else {
        match find_from(e, dots(), 0) {
            Some(k) => match (bound(e.take(k)), bound(e.skip(k + 3))) {
                (Some(a), Some(b)) => Some(RangeExpr::Between(a as u32, b as u32)),
                _ => None,
            },
            None => None,
        }
    }
}

/// `n` lies in the range.
pub open spec fn in_range(r: RangeExpr, n: u32) -> bool {
    match r {
        RangeExpr::AtMost(v) => n <= v,
        RangeExpr::AtLeast(v) => n >= v,
        RangeExpr::Between(a, b) => a <= n && n <= b,
    }
}

/// `n` matches the expression. A malformed expression matches nothing.
pub open spec fn range_matches(expr: Seq<char>, n: u32) -> bool {
    match parse_range(expr) {
        Some(r) => in_range(r, n),
        None => false,
    }
}

fn read_bound(s: &[char]) -> (r: Option<u32>)
    ensures
        match r {
            Some(v) => bound(s@) == Some(v as int),
            None => bound(s@) is None,
        },
{
    let t = trimmed(s);
    match parse_number(t.as_slice(), 0xffff_ffff) {
        Some(v) => Some(v as u32),
        None => None,
    }
}

/// Reads a range expression. Every text is accepted; a malformed one
/// gives no range.
pub fn read_range(expr: &str) -> (r: Option<RangeExpr>)
    ensures
        r == parse_range(expr@),
{
    let chars = to_chars(expr);
    let e = trimmed(chars.as_slice());
    let n: usize = e.len();
    if n >= 2 && e[0] == '<' && e[1] == '=' {
        let rest = slice_chars(e.as_slice(), 2, n);
        assert(rest@ =~= e@.skip(2));
        return match read_bound(rest.as_slice()) {
            Some(v) => Some(RangeExpr::AtMost(v)),
            None => None,
        };
    }
    if n >= 2 && e[0] == '>' && e[1] == '=' {
        let rest = slice_chars(e.as_slice(), 2, n);
        assert(rest@ =~= e@.skip(2));
        return match read_bound(rest.as_slice()) {
            Some(v) => Some(RangeExpr::AtLeast(v)),
            None => None,
        };
    }
    let sep: Vec<char> = vec!['.', '.', '='];
    assert(sep@ =~= dots());
    match find(e.as_slice(), sep.as_slice(), 0) {
        Some(k) => {
            proof {
                crate::text::lemma_find_from(e@, dots(), 0);
            }
            let a = slice_chars(e.as_slice(), 0, k);
            let b = slice_chars(e.as_slice(), k + 3, n);
            assert(a@ =~= e@.take(k as int));
            assert(b@ =~= e@.skip(k + 3));
            match (read_bound(a.as_slice()), read_bound(b.as_slice())) {
                (Some(x), Some(y)) => Some(RangeExpr::Between(x, y)),
                _ => None,
            }
        },
        None => None,
    }
}

/// Whether `n` matches the range expression.
pub fn matches_range(expr: &str, n: u32) -> (b: bool)
    ensures
        b == range_matches(expr@, n),
{
    match read_range(expr) {
        Some(RangeExpr::AtMost(v)) => n <= v,
        Some(RangeExpr::AtLeast(v)) => n >= v,
        Some(RangeExpr::Between(a, b)) => a <= n && n <= b,
        None => false,
    }
}

/// A malformed expression matches no score.
pub proof fn lemma_malformed_range_matches_nothing(expr: Seq<char>, n: u32)
    requires
        parse_range(expr) is None,
    ensures
        !range_matches(expr, n),
{
}

/// The verdict of a score: green where the green range matches, else
/// yellow where the yellow one does, else red, whether the red range
/// matches or none does.
pub open spec fn verdict_for(
    score: u32,
    green: Seq<char>,
    yellow: Seq<char>,
    red: Seq<char>,
) -> Verdict {
    if range_matches(green, score) {
        Verdict::Green
    } else if range_matches(yellow, score) {
        Verdict::Yellow
    } else {
        Verdict::Red
    }
}

/// The thresholds that hold where a policy names none.
pub open spec fn standard_thresholds() -> (Seq<char>, Seq<char>, Seq<char>) {
    ("<=20"@, "21..=60"@, ">=61"@)
}

/// The verdict of a score under a policy's thresholds, or under the
/// standard ones where it names none.
pub open spec fn verdict_of(score: u32, policy: PolicyModel) -> Verdict {
    let th = match policy.thresholds {
        Some(t) => t,
        None => standard_thresholds(),
    };
    verdict_for(score, th.0, th.1, th.2)
}

/// The verdict of a score under three range expressions.
pub fn verdict_from_ranges(score: u32, green: &str, yellow: &str, red: &str) -> (v: Verdict)
    ensures
        v == verdict_for(score, green@, yellow@, red@),
{
    if matches_range(green, score) {
        Verdict::Green
    } else if matches_range(yellow, score) {
        Verdict::Yellow
    } else {
        Verdict::Red
    }
}

/// The name of the verdict of a score under three range expressions.
pub fn decide(score: u32, green: &str, yellow: &str, red: &str) -> (name: &'static str)
    ensures
        name@ == verdict_name(verdict_for(score, green@, yellow@, red@)),
{
    verdict_from_ranges(score, green, yellow, red).name()
}

/// The name of the verdict of a score under a set of thresholds.
pub fn decide_verdict_from_thresholds(score: u32, th: &GradingThresholds) -> (name: &'static str)
    ensures
        name@ == verdict_name(verdict_for(score, th.green@, th.yellow@, th.red@)),
{
    decide(score, th.green.as_str(), th.yellow.as_str(), th.red.as_str())
}

/// The verdict of a score under a policy.
pub fn policy_verdict(score: u32, policy: &PolicyDoc) -> (v: Verdict)
    ensures
        v == verdict_of(score, policy@),
{
    match &policy.grading {
        Some(g) => verdict_from_ranges(
            score,
            g.thresholds.green.as_str(),
            g.thresholds.yellow.as_str(),
            g.thresholds.red.as_str(),
        ),
        None => verdict_from_ranges(score, "<=20", "21..=60", ">=61"),
    }
}

/// Grades a request under a policy: its risk score, and the verdict that
/// the policy's thresholds give that score.
pub fn grade(req: &SpellRequest, policy: &PolicyDoc) -> (outcome: GradeOutcome)
    ensures
        outcome.risk_score == risk_of(req@, policy@),
        outcome.risk_score <= MAX_RISK,
        outcome.verdict@ == verdict_name(verdict_of(outcome.risk_score, policy@)),
{
    let score = risk_score(req, policy);
    let verdict = policy_verdict(score, policy);
    GradeOutcome { risk_score: score, verdict: verdict.name().to_owned() }
}

/// The risk of every request under every policy lies between 0 and 100.
pub proof fn lemma_risk_bounded(req: RequestModel, policy: PolicyModel)
    ensures
        0 <= risk_of(req, policy) <= 100,
{
}

/// A command that reaches for the network without any grant scores at
/// least 40.
pub proof fn lemma_ungranted_net_scores(req: RequestModel, policy: PolicyModel)
    requires
        net_intent(req.cmd),
        no_net_grant(req, policy),
    ensures
        risk_of(req, policy) >= 40,
{
}

proof fn lemma_trim_keeps(s: Seq<char>)
    requires
        s.len() > 0,
        !crate::text::is_ws(s[0]),
        !crate::text::is_ws(s[s.len() - 1]),
    ensures
        trim(s) == s,
{
    assert(crate::text::skip_ws_back(s, s.len() as int) == s.len());
    assert(crate::text::trim_end(s) =~= s);
    assert(crate::text::skip_ws(s, 0) == 0);
    assert(crate::text::trim_start(s) =~= s);
}

proof fn lemma_two_digit_bound(s: Seq<char>, a: char, b: char)
    requires
        s.len() == 2,
        s[0] == a,
        s[1] == b,
        crate::text::is_digit(a),
        crate::text::is_digit(b),
    ensures
        bound(s) == Some((a as int - '0' as int) * 10 + (b as int - '0' as int)),
{
    lemma_trim_keeps(s);
    assert(crate::text::all_digits(s));
    let t = s.drop_last();
    assert(t.len() == 1 && t[0] == a);
    assert(t.drop_last().len() == 0);
    assert(crate::text::digits_value(t.drop_last()) == 0);
    assert(crate::text::digits_value(t) == a as int - '0' as int);
    assert(crate::text::digits_value(s) == (a as int - '0' as int) * 10 + (b as int - '0' as int));
}

/// Under the standard thresholds a score up to 20 is green, one from 21
/// to 60 yellow, and every other score red.
pub proof fn lemma_standard_verdicts(score: u32, policy: PolicyModel)
    requires
        policy.thresholds is None,
    ensures
        verdict_of(score, policy) == (if score <= 20 {
            Verdict::Green
        } else if score <= 60 {
            Verdict::Yellow
        } else {
            Verdict::Red
        }),
{
    reveal_strlit("<=20");
    reveal_strlit("21..=60");
    reveal_strlit(">=61");
    let g = "<=20"@;
    let y = "21..=60"@;
    lemma_trim_keeps(g);
    lemma_two_digit_bound(g.skip(2), '2', '0');
    assert(parse_range(g) == Some(RangeExpr::AtMost(20)));
    lemma_trim_keeps(y);
    assert(!crate::text::occurs_at(y, dots(), 0)) by {
        if crate::text::occurs_at(y, dots(), 0) {
            assert(y.subrange(0, 3)[0] == dots()[0]);
        }
    }
    assert(!crate::text::occurs_at(y, dots(), 1)) by {
        if crate::text::occurs_at(y, dots(), 1) {
            assert(y.subrange(1, 4)[0] == dots()[0]);
        }
    }
    assert(crate::text::occurs_at(y, dots(), 2)) by {
        assert(y.subrange(2, 5) =~= dots());
    }
    assert(find_from(y, dots(), 2) == Some(2int));
    assert(find_from(y, dots(), 1) == Some(2int));
    assert(find_from(y, dots(), 0) == Some(2int));
    lemma_two_digit_bound(y.take(2), '2', '1');
    lemma_two_digit_bound(y.skip(5), '6', '0');
    assert(parse_range(y) == Some(RangeExpr::Between(21, 60)));
}

} // verus!
