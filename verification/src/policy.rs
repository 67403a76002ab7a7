//! Policy evaluation: a request is checked against a policy, and either
//! the first violation or the plan of what to execute comes out.

use crate::endpoint::{endpoint_in_list, endpoint_permitted, extract_http_hosts, http_endpoints};
use crate::grader::{has_net_intent, net_intent};
use crate::pattern::{matches_any, matches_some};
use crate::sandbox::SandboxSpec;
use crate::schema::{EnvEntry, FileEntry, PolicyDoc, PolicyModel, RequestModel, SpellRequest};
use crate::text::{contains, contains_sub, is_prefix, starts_with, texts, to_chars};
use base64::Engine;
use vstd::prelude::*;

verus! {

/// Why a request may not run.
#[derive(Debug, Clone)]
pub enum PolicyError {
    /// A deny pattern matches the name of a variable.
    EnvDenied(String),
    /// The policy lists allowed names and none matches this one.
    EnvNotAllowed(String),
    /// The command reaches for the network and nothing grants any.
    NetNotAllowed,
    /// No allow entry admits this endpoint of the command.
    NetEndpointNotAllowed(String),
    /// The request asks for more wall-clock time than the policy gives.
    TimeoutExceedsLimit,
    /// The path of a file is relative or holds `..`.
    PathInvalid(String),
    /// A read-only pattern matches the path of a file.
    PathReadonly(String),
    /// Nothing allows a file at this path.
    PathNotAllowed(String),
}

/// A violation as plain values.
pub enum Violation {
    EnvDenied(Seq<char>),
    EnvNotAllowed(Seq<char>),
    NetNotAllowed,
    NetEndpointNotAllowed(Seq<char>),
    TimeoutExceedsLimit,
    PathInvalid(Seq<char>),
    PathReadonly(Seq<char>),
    PathNotAllowed(Seq<char>),
}

impl View for PolicyError {
    type V = Violation;

    open spec fn view(&self) -> Violation {
        match self {
            PolicyError::EnvDenied(s) => Violation::EnvDenied(s@),
            PolicyError::EnvNotAllowed(s) => Violation::EnvNotAllowed(s@),
            PolicyError::NetNotAllowed => Violation::NetNotAllowed,
            PolicyError::NetEndpointNotAllowed(s) => Violation::NetEndpointNotAllowed(s@),
            PolicyError::TimeoutExceedsLimit => Violation::TimeoutExceedsLimit,
            PolicyError::PathInvalid(s) => Violation::PathInvalid(s@),
            PolicyError::PathReadonly(s) => Violation::PathReadonly(s@),
            PolicyError::PathNotAllowed(s) => Violation::PathNotAllowed(s@),
        }
    }
}

/// The resource that a violation is about.
pub open spec fn violation_kind(v: Violation) -> Seq<char> {
    match v {
        Violation::EnvDenied(_) => "env"@,
        Violation::EnvNotAllowed(_) => "env"@,
        Violation::NetNotAllowed => "net"@,
        Violation::NetEndpointNotAllowed(_) => "net"@,
        Violation::TimeoutExceedsLimit => "timeout"@,
        Violation::PathInvalid(_) => "fs"@,
        Violation::PathReadonly(_) => "fs"@,
        Violation::PathNotAllowed(_) => "fs"@,
    }
}

/// A violation in words.
pub open spec fn violation_text(v: Violation) -> Seq<char> {
    match v {
        Violation::EnvDenied(k) => "policy: env deny "@ + k,
        Violation::EnvNotAllowed(k) => "policy: env not allowed "@ + k,
        Violation::NetNotAllowed => "policy: network is not allowed (no allowlist)"@,
        Violation::NetEndpointNotAllowed(h) => "policy: network to "@ + h + " not allowed"@,
        Violation::TimeoutExceedsLimit => "policy: timeout_sec exceeds wall_sec limit"@,
        Violation::PathInvalid(p) => "policy: file.path must be absolute and must not contain '..': "@
            + p,
        Violation::PathReadonly(p) => "policy: write to readonly "@ + p,
        Violation::PathNotAllowed(p) => "policy: write denied for "@ + p,
    }
}

impl PolicyError {
    /// The resource that the violation is about: `env`, `net`, `timeout`
    /// or `fs`.
    pub fn kind(&self) -> (k: &'static str)
        ensures
            k@ == violation_kind(self@),
    {
        match self {
            PolicyError::EnvDenied(_) => "env",
            PolicyError::EnvNotAllowed(_) => "env",
            PolicyError::NetNotAllowed => "net",
            PolicyError::NetEndpointNotAllowed(_) => "net",
            PolicyError::TimeoutExceedsLimit => "timeout",
            PolicyError::PathInvalid(_) => "fs",
            PolicyError::PathReadonly(_) => "fs",
            PolicyError::PathNotAllowed(_) => "fs",
        }
    }

    /// The violation in words.
    pub fn message(&self) -> (s: String)
        ensures
            s@ == violation_text(self@),
    {
        match self {
            PolicyError::EnvDenied(k) => crate::text::joined("policy: env deny ", k.as_str()),
            PolicyError::EnvNotAllowed(k) => crate::text::joined(
                "policy: env not allowed ",
                k.as_str(),
            ),
            PolicyError::NetNotAllowed => "policy: network is not allowed (no allowlist)".to_owned(),
            PolicyError::NetEndpointNotAllowed(h) => {
                let a = crate::text::joined("policy: network to ", h.as_str());
                crate::text::joined(a.as_str(), " not allowed")
            },
            PolicyError::TimeoutExceedsLimit => "policy: timeout_sec exceeds wall_sec limit".to_owned(),
            PolicyError::PathInvalid(p) => crate::text::joined(
                "policy: file.path must be absolute and must not contain '..': ",
                p.as_str(),
            ),
            PolicyError::PathReadonly(p) => crate::text::joined(
                "policy: write to readonly ",
                p.as_str(),
            ),
            PolicyError::PathNotAllowed(p) => crate::text::joined(
                "policy: write denied for ",
                p.as_str(),
            ),
        }
    }
}

/// A file to write before the command runs.
#[derive(Debug, Clone)]
pub struct FileOp {
    pub path: String,
    pub content: Vec<u8>,
}

/// What to execute for a request that passed: the caps, the files to
/// write, the environment, the command and its input.
#[derive(Debug, Clone)]
pub struct ExecutionPlan {
    pub limits: SandboxSpec,
    pub files: Vec<FileOp>,
    pub env: Vec<(String, String)>,
    pub cmd: String,
    pub stdin: String,
}

/// A plan as plain values.
pub struct PlanModel {
    pub limits: SandboxSpec,
    pub files: Seq<(Seq<char>, Seq<u8>)>,
    pub env: Seq<(Seq<char>, Seq<char>)>,
    pub cmd: Seq<char>,
    pub stdin: Seq<char>,
}

/// Paths and contents of a list of file operations.
pub open spec fn op_pairs(v: Seq<FileOp>) -> Seq<(Seq<char>, Seq<u8>)> {
    v.map_values(|f: FileOp| (f.path@, f.content@))
}

/// Names and values of a list of variables.
pub open spec fn var_pairs(v: Seq<(String, String)>) -> Seq<(Seq<char>, Seq<char>)> {
    v.map_values(|p: (String, String)| (p.0@, p.1@))
}

impl View for ExecutionPlan {
    type V = PlanModel;

    open spec fn view(&self) -> PlanModel {
        PlanModel {
            limits: self.limits,
            files: op_pairs(self.files@),
            env: var_pairs(self.env@),
            cmd: self.cmd@,
            stdin: self.stdin@,
        }
    }
}

/// The index of the first item from `i` on of which `bad` holds.
pub open spec fn first_index<T>(items: Seq<T>, bad: spec_fn(T) -> bool, i: int) -> Option<int>
    decreases items.len() - i,
{
    if i < 0 || i >= items.len() {
        None
    } else if bad(items[i]) {
        Some(i)
    } else {
        first_index(items, bad, i + 1)
    }
}

/// What `first_index` finds is an index of a bad item with none before
/// it, and it finds one whenever there is one.
pub proof fn lemma_first_index<T>(items: Seq<T>, bad: spec_fn(T) -> bool, i: int)
    requires
        0 <= i,
    ensures
        match first_index(items, bad, i) {
            Some(k) => i <= k < items.len() && bad(items[k]) && forall|j: int|
                i <= j < k ==> !bad(#[trigger] items[j]),
            None => forall|j: int| i <= j < items.len() ==> !bad(#[trigger] items[j]),
        },
    decreases items.len() - i,
{
    if i < items.len() && !bad(items[i]) {
        lemma_first_index(items, bad, i + 1);
    }
}

/// A path may be written to only if it is absolute and holds no `..`.
pub open spec fn path_valid(path: Seq<char>) -> bool {
    path.len() > 0 && path[0] == '/' && !contains_sub(path, seq!['.', '.'])
}

/// The path lies under `/tmp/`.
pub open spec fn under_tmp(path: Seq<char>) -> bool {
    is_prefix(seq!['/', 't', 'm', 'p', '/'], path)
}

/// A file may be written where its path lies under `/tmp/`, or a pattern
/// of the request or of the policy matches it.
pub open spec fn file_allowed(path: Seq<char>, req: RequestModel, policy: PolicyModel) -> bool {
    under_tmp(path) || matches_some(path, req.allow_fs) || matches_some(path, policy.fs_allow)
}

/// What is wrong with writing a file at `path`, if anything: an invalid
/// path before a read-only one, and that before one that nothing allows.
pub open spec fn file_violation(path: Seq<char>, req: RequestModel, policy: PolicyModel) -> Option<
    Violation,
> {
    if !path_valid(path) {
        Some(Violation::PathInvalid(path))
    } else if matches_some(path, policy.fs_readonly) {
        Some(Violation::PathReadonly(path))
    } else if !file_allowed(path, req, policy) {
        Some(Violation::PathNotAllowed(path))
    } else {
        None
    }
}

/// A request is well formed where it asks for at most 60 seconds and
/// every path of its files is valid.
pub open spec fn request_well_formed(req: RequestModel) -> bool {
    &&& req.timeout_sec matches Some(t) ==> t <= 60
    &&& forall|i: int| 0 <= i < req.files.len() ==> path_valid(#[trigger] req.files[i].0)
}

/// Whether a request is well formed.
pub fn is_well_formed(req: &SpellRequest) -> (b: bool)
    ensures
        b == request_well_formed(req@),
{
    match req.timeout_sec {
        Some(t) => {
            if t > crate::schema::MAX_TIMEOUT_SEC {
                return false;
            }
        },
        None => {},
    }
    match &req.files {
        Some(files) => {
            let mut i: usize = 0;
            while i < files.len()
                invariant
                    i <= files@.len(),
                    req.files == Some(*files),
                    forall|j: int| 0 <= j < i ==> path_valid(#[trigger] req@.files[j].0),
                decreases files@.len() - i,
            {
                assert(req@.files[i as int].0 == files@[i as int].path@);
                if !path_is_valid(files[i].path.as_str()) {
                    return false;
                }
                i += 1;
            }
            true
        },
        None => true,
    }
}

/// The network entries that apply to a request: its own, then the
/// policy's.
pub open spec fn net_grants(req: RequestModel, policy: PolicyModel) -> Seq<Seq<char>> {
    req.allow_net + policy.net_allow
}

/// The first violation of a policy by a request, the checks taken in this
/// order: denied variables, variables that are not allowed, the network,
/// the timeout, the files.
pub open spec fn violation_of(req: RequestModel, policy: PolicyModel) -> Option<Violation> {
    let denied = first_index(
        req.env,
        |e: (Seq<char>, Seq<char>)| matches_some(e.0, policy.env_deny),
        0,
    );
    let unlisted = first_index(
        req.env,
        |e: (Seq<char>, Seq<char>)| !matches_some(e.0, policy.env_allow),
        0,
    );
    let grants = net_grants(req, policy);
    let stranger = first_index(
        http_endpoints(req.cmd),
        |h: Seq<char>| !endpoint_in_list(h, grants),
        0,
    );
    let file = first_index(
        req.files,
        |f: (Seq<char>, Seq<char>)| file_violation(f.0, req, policy) is Some,
        0,
    );
    if denied is Some {
        Some(Violation::EnvDenied(req.env[denied->0].0))
    } else if policy.env_allow.len() > 0 && unlisted is Some {
        Some(Violation::EnvNotAllowed(req.env[unlisted->0].0))
    } else if net_intent(req.cmd) && grants.len() == 0 {
        Some(Violation::NetNotAllowed)
    } else if net_intent(req.cmd) && stranger is Some {
        Some(Violation::NetEndpointNotAllowed(http_endpoints(req.cmd)[stranger->0]))
    } else if req.timeout_sec is Some && req.timeout_sec->0 > policy.limits.wall_sec {
        Some(Violation::TimeoutExceedsLimit)
    } else if file is Some {
        file_violation(req.files[file->0].0, req, policy)
    } else {
        None
    }
}

/// What `base64::Engine::decode` returns on the standard alphabet with
/// padding, where it succeeds.
pub uninterp spec fn base64_decoded(text: Seq<char>) -> Option<Seq<u8>>;

/// `base64::Engine::decode` of `base64::engine::general_purpose::STANDARD`:
/// the bytes that the text encodes, or nothing where the engine rejects
/// it. The outcome depends on the text alone.
#[verifier::external_body]
fn decode_standard(text: &str) -> (r: Option<Vec<u8>>)
    ensures
        match r {
            Some(bytes) => base64_decoded(text@) == Some(bytes@),
            None => base64_decoded(text@) is None,
        },
{
    base64::engine::general_purpose::STANDARD.decode(text).ok()
}

/// The files that a request has written, in order: an empty content
/// makes an empty file, an encoded one a file of the decoded bytes, and
/// one that does not decode makes none.
pub open spec fn file_ops(files: Seq<(Seq<char>, Seq<char>)>) -> Seq<(Seq<char>, Seq<u8>)>
    decreases files.len(),
{
    if files.len() == 0 {
        Seq::empty()
    } else {
        let rest = file_ops(files.drop_last());
        let f = files.last();
        match materialized(f.0, f.1, base64_decoded(f.1)) {
            Some(op) => rest.push(op),
            None => rest,
        }
    }
}

/// The file that one entry asks for, given what its content decodes to.
pub open spec fn materialized(
    path: Seq<char>,
    content_b64: Seq<char>,
    decoded: Option<Seq<u8>>,
) -> Option<(Seq<char>, Seq<u8>)> {
    if content_b64.len() == 0 {
        Some((path, Seq::empty()))
    } else {
        match decoded {
            Some(bytes) => Some((path, bytes)),
            None => None,
        }
    }
}

/// The file that one entry asks for, given what its content decodes to.
pub fn materialize(path: &str, content_b64: &str, decoded: Option<Vec<u8>>) -> (r: Option<FileOp>)
    ensures
        match r {
            Some(op) => materialized(
                path@,
                content_b64@,
                match decoded {
                    Some(b) => Some(b@),
                    None => None,
                },
            ) == Some((op.path@, op.content@)),
            None => materialized(
                path@,
                content_b64@,
                match decoded {
                    Some(b) => Some(b@),
                    None => None,
                },
            ) is None,
        },
{
    if content_b64.is_empty() {
        let content: Vec<u8> = Vec::new();
        assert(content@ =~= Seq::<u8>::empty());
        return Some(FileOp { path: path.to_owned(), content });
    }
    match decoded {
        Some(bytes) => Some(FileOp { path: path.to_owned(), content: bytes }),
        None => None,
    }
}

/// The environment of the child: `HOME` and `TMPDIR` set to `/tmp`, then
/// the variables of the request.
pub open spec fn plan_env(req: RequestModel) -> Seq<(Seq<char>, Seq<char>)> {
    seq![("HOME"@, "/tmp"@), ("TMPDIR"@, "/tmp"@)] + req.env
}

/// The caps of a run: the policy's, with the wall-clock cap that the
/// request asks for where it asks for one.
pub open spec fn plan_limits(req: RequestModel, policy: PolicyModel) -> SandboxSpec {
    SandboxSpec {
        wall_sec: match req.timeout_sec {
            Some(t) => t,
            None => policy.limits.wall_sec,
        },
        cpu_ms: policy.limits.cpu_ms,
        memory_mb: policy.limits.memory_mb,
        pids: policy.limits.pids,
    }
}

/// The plan of a request that violates nothing.
pub open spec fn plan_of(req: RequestModel, policy: PolicyModel) -> PlanModel {
    PlanModel {
        limits: plan_limits(req, policy),
        files: file_ops(req.files),
        env: plan_env(req),
        cmd: req.cmd,
        stdin: req.stdin,
    }
}

/// Whether a path is absolute and holds no `..`.
pub fn path_is_valid(path: &str) -> (b: bool)
    ensures
        b == path_valid(path@),
{
    let p = to_chars(path);
    if p.len() == 0 || p[0] != '/' {
        return false;
    }
    let dd: Vec<char> = vec!['.', '.'];
    assert(dd@ =~= seq!['.', '.']);
    !contains(p.as_slice(), dd.as_slice())
}

/// Whether a path lies under `/tmp/`.
pub fn path_under_tmp(path: &str) -> (b: bool)
    ensures
        b == under_tmp(path@),
{
    let p = to_chars(path);
    let tmp: Vec<char> = vec!['/', 't', 'm', 'p', '/'];
    assert(tmp@ =~= seq!['/', 't', 'm', 'p', '/']);
    starts_with(p.as_slice(), tmp.as_slice())
}

fn check_file(path: &String, req: &SpellRequest, policy: &PolicyDoc) -> (r: Option<PolicyError>)
    ensures
        match r {
            Some(e) => file_violation(path@, req@, policy@) == Some(e@),
            None => file_violation(path@, req@, policy@) is None,
        },
{
    if !path_is_valid(path.as_str()) {
        return Some(PolicyError::PathInvalid(path.clone()));
    }
    if matches_any(path.as_str(), &policy.capabilities.fs.readonly) {
        return Some(PolicyError::PathReadonly(path.clone()));
    }
    let by_request: bool = match &req.allow_fs {
        Some(l) => matches_any(path.as_str(), l),
        None => false,
    };
    proof {
        if req.allow_fs is None {
            assert(!matches_some(path@, req@.allow_fs));
        }
    }
    if path_under_tmp(path.as_str()) || by_request || matches_any(
        path.as_str(),
        &policy.capabilities.fs.allow,
    ) {
        None
    } else {
        Some(PolicyError::PathNotAllowed(path.clone()))
    }
}

fn check_env_denied(env: &Vec<EnvEntry>, policy: &PolicyDoc) -> (r: Option<String>)
    ensures
        ({
            let found = first_index(
                crate::schema::env_pairs(env@),
                |e: (Seq<char>, Seq<char>)| matches_some(e.0, policy@.env_deny),
                0,
            );
            match r {
                Some(name) => found is Some && crate::schema::env_pairs(env@)[found->0].0 == name@,
                None => found is None,
            }
        }),
{
    let ghost pairs = crate::schema::env_pairs(env@);
    let ghost bad = |e: (Seq<char>, Seq<char>)| matches_some(e.0, policy@.env_deny);
    let mut i: usize = 0;
    while i < env.len()
        invariant
            i <= env@.len(),
            pairs == crate::schema::env_pairs(env@),
            bad == (|e: (Seq<char>, Seq<char>)| matches_some(e.0, policy@.env_deny)),
            first_index(pairs, bad, 0) == first_index(pairs, bad, i as int),
        decreases env@.len() - i,
    {
        assert(pairs[i as int].0 == env@[i as int].name@);
        if matches_any(env[i].name.as_str(), &policy.capabilities.env.deny) {
            assert(bad(pairs[i as int]));
            return Some(env[i].name.clone());
        }
        assert(!bad(pairs[i as int]));
        i += 1;
    }
    None
}

fn check_env_allowed(env: &Vec<EnvEntry>, policy: &PolicyDoc) -> (r: Option<String>)
    ensures
        ({
            let found = first_index(
                crate::schema::env_pairs(env@),
                |e: (Seq<char>, Seq<char>)| !matches_some(e.0, policy@.env_allow),
                0,
            );
            match r {
                Some(name) => found is Some && crate::schema::env_pairs(env@)[found->0].0 == name@,
                None => found is None,
            }
        }),
{
    let ghost pairs = crate::schema::env_pairs(env@);
    let ghost bad = |e: (Seq<char>, Seq<char>)| !matches_some(e.0, policy@.env_allow);
    let mut i: usize = 0;
    while i < env.len()
        invariant
            i <= env@.len(),
            pairs == crate::schema::env_pairs(env@),
            bad == (|e: (Seq<char>, Seq<char>)| !matches_some(e.0, policy@.env_allow)),
            first_index(pairs, bad, 0) == first_index(pairs, bad, i as int),
        decreases env@.len() - i,
    {
        assert(pairs[i as int].0 == env@[i as int].name@);
        if !matches_any(env[i].name.as_str(), &policy.capabilities.env.allow) {
            assert(bad(pairs[i as int]));
            return Some(env[i].name.clone());
        }
        assert(!bad(pairs[i as int]));
        i += 1;
    }
    None
}

fn check_endpoints(hosts: &Vec<String>, grants: &Vec<String>) -> (r: Option<String>)
    ensures
        ({
            let found = first_index(
                texts(hosts@),
                |h: Seq<char>| !endpoint_in_list(h, texts(grants@)),
                0,
            );
            match r {
                Some(h) => found is Some && texts(hosts@)[found->0] == h@,
                None => found is None,
            }
        }),
{
    let ghost items = texts(hosts@);
    let ghost bad = |h: Seq<char>| !endpoint_in_list(h, texts(grants@));
    let mut i: usize = 0;
    while i < hosts.len()
        invariant
            i <= hosts@.len(),
            items == texts(hosts@),
            bad == (|h: Seq<char>| !endpoint_in_list(h, texts(grants@))),
            first_index(items, bad, 0) == first_index(items, bad, i as int),
        decreases hosts@.len() - i,
    {
        assert(items[i as int] == hosts@[i as int]@);
        if !endpoint_permitted(hosts[i].as_str(), grants) {
            assert(bad(items[i as int]));
            return Some(hosts[i].clone());
        }
        assert(!bad(items[i as int]));
        i += 1;
    }
    None
}

fn check_files(files: &Vec<FileEntry>, req: &SpellRequest, policy: &PolicyDoc) -> (r: Option<
    PolicyError,
>)
    ensures
        ({
            let found = first_index(
                crate::schema::file_pairs(files@),
                |f: (Seq<char>, Seq<char>)| file_violation(f.0, req@, policy@) is Some,
                0,
            );
            match r {
                Some(e) => found is Some && file_violation(
                    crate::schema::file_pairs(files@)[found->0].0,
                    req@,
                    policy@,
                ) == Some(e@),
                None => found is None,
            }
        }),
{
    let ghost pairs = crate::schema::file_pairs(files@);
    let ghost bad = |f: (Seq<char>, Seq<char>)| file_violation(f.0, req@, policy@) is Some;
    let mut i: usize = 0;
    while i < files.len()
        invariant
            i <= files@.len(),
            pairs == crate::schema::file_pairs(files@),
            bad == (|f: (Seq<char>, Seq<char>)| file_violation(f.0, req@, policy@) is Some),
            first_index(pairs, bad, 0) == first_index(pairs, bad, i as int),
        decreases files@.len() - i,
    {
        assert(pairs[i as int].0 == files@[i as int].path@);
        match check_file(&files[i].path, req, policy) {
            Some(e) => {
                assert(bad(pairs[i as int]));
                return Some(e);
            },
            None => {},
        }
        assert(!bad(pairs[i as int]));
        i += 1;
    }
    None
}

/// The network entries that apply to a request.
pub fn merged_grants(req: &SpellRequest, policy: &PolicyDoc) -> (r: Vec<String>)
    ensures
        texts(r@) == net_grants(req@, policy@),
{
    let mut r: Vec<String> = Vec::new();
    assert(texts(r@) =~= Seq::<Seq<char>>::empty());
    match &req.allow_net {
        Some(l) => {
            let mut i: usize = 0;
            while i < l.len()
                invariant
                    i <= l@.len(),
                    texts(r@) == texts(l@).take(i as int),
                decreases l@.len() - i,
            {
                let ghost before = texts(r@);
                let item = l[i].clone();
                assert(item@ == texts(l@)[i as int]);
                r.push(item);
                assert(texts(r@) =~= before.push(item@));
                assert(texts(l@).take(i + 1) =~= texts(l@).take(i as int).push(texts(l@)[i as int]));
                i += 1;
            }
            assert(texts(l@).take(l@.len() as int) =~= texts(l@));
        },
        None => {},
    }
    let ghost head = texts(r@);
    assert(head == req@.allow_net);
    let p = &policy.capabilities.net.allow;
    let mut j: usize = 0;
    assert(texts(r@) =~= head + texts(p@).take(0));
    while j < p.len()
        invariant
            j <= p@.len(),
            texts(r@) == head + texts(p@).take(j as int),
        decreases p@.len() - j,
    {
        let ghost before = texts(r@);
        let item = p[j].clone();
        assert(item@ == texts(p@)[j as int]);
        r.push(item);
        assert(texts(r@) =~= before.push(item@));
        assert(texts(p@).take(j + 1) =~= texts(p@).take(j as int).push(texts(p@)[j as int]));
        assert(texts(r@) =~= head + texts(p@).take(j + 1));
        j += 1;
    }
    assert(texts(p@).take(p@.len() as int) =~= texts(p@));
    r
}

fn build_files(files: &Vec<FileEntry>) -> (r: Vec<FileOp>)
    ensures
        op_pairs(r@) == file_ops(crate::schema::file_pairs(files@)),
{
    let ghost pairs = crate::schema::file_pairs(files@);
    let mut r: Vec<FileOp> = Vec::new();
    let mut i: usize = 0;
    assert(pairs.take(0) =~= Seq::<(Seq<char>, Seq<char>)>::empty());
    assert(op_pairs(r@) =~= file_ops(pairs.take(0)));
    while i < files.len()
        invariant
            i <= files@.len(),
            pairs == crate::schema::file_pairs(files@),
            op_pairs(r@) == file_ops(pairs.take(i as int)),
        decreases files@.len() - i,
    {
        let f = &files[i];
        let decoded = decode_standard(f.content_b64.as_str());
        let ghost before = op_pairs(r@);
        proof {
            let next = pairs.take(i + 1);
            assert(next.drop_last() =~= pairs.take(i as int));
            assert(next.last() == (f.path@, f.content_b64@));
        }
        match materialize(f.path.as_str(), f.content_b64.as_str(), decoded) {
            Some(op) => {
                r.push(op);
                assert(op_pairs(r@) =~= before.push((op.path@, op.content@)));
            },
            None => {},
        }
        i += 1;
    }
    assert(pairs.take(files@.len() as int) =~= pairs);
    r
}

fn build_env(env: &Option<Vec<EnvEntry>>) -> (r: Vec<(String, String)>)
    ensures
        var_pairs(r@) == seq![("HOME"@, "/tmp"@), ("TMPDIR"@, "/tmp"@)] + (match *env {
            Some(e) => crate::schema::env_pairs(e@),
            None => Seq::empty(),
        }),
{
    let mut r: Vec<(String, String)> = Vec::new();
    r.push(("HOME".to_owned(), "/tmp".to_owned()));
    r.push(("TMPDIR".to_owned(), "/tmp".to_owned()));
    let ghost head = seq![("HOME"@, "/tmp"@), ("TMPDIR"@, "/tmp"@)];
    assert(var_pairs(r@) =~= head);
    match env {
        Some(e) => {
            let ghost pairs = crate::schema::env_pairs(e@);
            let mut i: usize = 0;
            assert(var_pairs(r@) =~= head + pairs.take(0));
            while i < e.len()
                invariant
                    i <= e@.len(),
                    pairs == crate::schema::env_pairs(e@),
                    var_pairs(r@) == head + pairs.take(i as int),
                decreases e@.len() - i,
            {
                let ghost before = var_pairs(r@);
                let name = e[i].name.clone();
                let value = e[i].value.render();
                assert((name@, value@) == pairs[i as int]);
                r.push((name, value));
                assert(var_pairs(r@) =~= before.push(pairs[i as int]));
                assert(pairs.take(i + 1) =~= pairs.take(i as int).push(pairs[i as int]));
                assert(var_pairs(r@) =~= head + pairs.take(i + 1));
                i += 1;
            }
            assert(pairs.take(e@.len() as int) =~= pairs);
        },
        None => {
            assert(var_pairs(r@) =~= head + Seq::<(Seq<char>, Seq<char>)>::empty());
        },
    }
    r
}

/// Checks a request against a policy. The first violation is returned,
/// the checks taken in order; a request that violates nothing gets its
/// plan.
pub fn evaluate(req: &SpellRequest, policy: &PolicyDoc) -> (r: Result<ExecutionPlan, PolicyError>)
    ensures
        match r {
            Ok(plan) => violation_of(req@, policy@) is None && plan@ == plan_of(req@, policy@),
            Err(e) => violation_of(req@, policy@) == Some(e@),
        },
{
    let cmd: String = match &req.cmd {
        Some(c) => c.clone(),
        None => String::new(),
    };
    let stdin: String = match &req.stdin {
        Some(c) => c.clone(),
        None => String::new(),
    };
    proof {
        if req.env is None {
            assert(first_index(
                req@.env,
                |e: (Seq<char>, Seq<char>)| matches_some(e.0, policy@.env_deny),
                0,
            ) is None);
            assert(first_index(
                req@.env,
                |e: (Seq<char>, Seq<char>)| !matches_some(e.0, policy@.env_allow),
                0,
            ) is None);
        }
        if req.files is None {
            assert(first_index(
                req@.files,
                |f: (Seq<char>, Seq<char>)| file_violation(f.0, req@, policy@) is Some,
                0,
            ) is None);
        }
    }
    match &req.env {
        Some(env) => {
            match check_env_denied(env, policy) {
                Some(name) => {
                    return Err(PolicyError::EnvDenied(name));
                },
                None => {},
            }
            if policy.capabilities.env.allow.len() > 0 {
                match check_env_allowed(env, policy) {
                    Some(name) => {
                        return Err(PolicyError::EnvNotAllowed(name));
                    },
                    None => {},
                }
            }
        },
        None => {},
    }
    if has_net_intent(cmd.as_str()) {
        let grants = merged_grants(req, policy);
        if grants.len() == 0 {
            return Err(PolicyError::NetNotAllowed);
        }
        let hosts = extract_http_hosts(cmd.as_str());
        match check_endpoints(&hosts, &grants) {
            Some(h) => {
                return Err(PolicyError::NetEndpointNotAllowed(h));
            },
            None => {},
        }
    }
    match req.timeout_sec {
        Some(t) => {
            if t > policy.limits.wall_sec {
                return Err(PolicyError::TimeoutExceedsLimit);
            }
        },
        None => {},
    }
    let files: Vec<FileOp> = match &req.files {
        Some(fl) => {
            match check_files(fl, req, policy) {
                Some(e) => {
                    return Err(e);
                },
                None => {},
            }
            build_files(fl)
        },
        None => {
            let none: Vec<FileOp> = Vec::new();
            assert(op_pairs(none@) =~= file_ops(req@.files));
            none
        },
    };
    let env = build_env(&req.env);
    let limits = SandboxSpec {
        wall_sec: match req.timeout_sec {
            Some(t) => t,
            None => policy.limits.wall_sec,
        },
        cpu_ms: policy.limits.cpu_ms,
        memory_mb: policy.limits.memory_mb,
        pids: policy.limits.pids,
    };
    Ok(ExecutionPlan { limits, files, env, cmd, stdin })
}

/// A request with a file whose path is relative or holds `..` is always
/// refused, so no plan, and with it no file to write, comes out of it.
pub proof fn lemma_invalid_path_is_refused(req: RequestModel, policy: PolicyModel, i: int)
    requires
        0 <= i < req.files.len(),
        !path_valid(req.files[i].0),
    ensures
        violation_of(req, policy) is Some,
{
    let bad = |f: (Seq<char>, Seq<char>)| file_violation(f.0, req, policy) is Some;
    lemma_first_index(req.files, bad, 0);
    assert(bad(req.files[i]));
}

/// A request that asks for more wall-clock time than the policy gives is
/// always refused, and for that reason where variables and network pass.
pub proof fn lemma_timeout_over_limit_is_refused(req: RequestModel, policy: PolicyModel)
    requires
        req.timeout_sec is Some,
        req.timeout_sec->0 > policy.limits.wall_sec,
    ensures
        violation_of(req, policy) is Some,
        violation_of(req, policy) matches Some(v) && (v is EnvDenied || v is EnvNotAllowed
            || v is NetNotAllowed || v is NetEndpointNotAllowed || v is TimeoutExceedsLimit),
{
}

/// A request that asks for no more wall-clock time than the policy gives,
/// be it all of it or none at all, is never refused for its timeout, and
/// its plan carries the time it asked for.
pub proof fn lemma_timeout_within_limit_passes(req: RequestModel, policy: PolicyModel)
    requires
        req.timeout_sec is Some,
        req.timeout_sec->0 <= policy.limits.wall_sec,
    ensures
        violation_of(req, policy) != Some(Violation::TimeoutExceedsLimit),
        plan_of(req, policy).limits.wall_sec == req.timeout_sec->0,
{
    let bad = |f: (Seq<char>, Seq<char>)| file_violation(f.0, req, policy) is Some;
    lemma_first_index(req.files, bad, 0);
}

/// A command that reaches for the network is refused where neither the
/// request nor the policy grants any entry, unless a variable is refused
/// first.
pub proof fn lemma_ungranted_net_is_refused(req: RequestModel, policy: PolicyModel)
    requires
        net_intent(req.cmd),
        req.allow_net.len() == 0,
        policy.net_allow.len() == 0,
    ensures
        violation_of(req, policy) matches Some(v) && (v is EnvDenied || v is EnvNotAllowed
            || v is NetNotAllowed),
{
}

} // verus!
