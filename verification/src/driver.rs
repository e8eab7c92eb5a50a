//! What the driver of a run decides: where extra variables come from, which hosts a
//! deployment names, and how a host is reached.

use crate::common::{opt_entries, Task, TaskModel, TextPair};
use crate::context::{bind, Binding, Context};
use crate::engine::{merge_spec, merge_vars};
use crate::json::{json_parse, parse_json, Json, JsonModel, MemberModel};
use crate::modules::debug::pair_views;
use crate::modules::include_tasks::task_views;
use crate::text::{
    chars_of, find_char, lemma_split_on_unfold, opt_view, same_text, skip_forward, split_on,
    trim, trim_range, views, CharClass,
};
use crate::utils::{RenderError, RenderErrorModel};
use indexmap::IndexMap;
use vstd::prelude::*;
use vstd::string::*;

verus! {

/// Where extra variables come from.
#[derive(Debug, Clone, PartialEq, Eq)]
pub enum ExtraVars {
    /// A file of variables, by its path.
    File(String),
    /// A JSON object, as text.
    Json(String),
    /// Names with values.
    Pairs(Vec<(String, String)>),
}

/// The mathematical model of an [`ExtraVars`].
pub enum ExtraVarsModel {
    File(Seq<char>),
    Json(Seq<char>),
    Pairs(Seq<TextPair>),
}

impl View for ExtraVars {
    type V = ExtraVarsModel;

    open spec fn view(&self) -> ExtraVarsModel {
        match self {
            ExtraVars::File(path) => ExtraVarsModel::File(path@),
            ExtraVars::Json(text) => ExtraVarsModel::Json(text@),
            ExtraVars::Pairs(pairs) => ExtraVarsModel::Pairs(pair_views(pairs@)),
        }
    }
}

/// The names with values among `words`: each word that holds `=` gives its part before
/// the first `=` as a name and the rest as the value; the other words give nothing.
pub open spec fn pairs_of(words: Seq<Seq<char>>) -> Seq<TextPair>
    decreases words.len(),
{
    if words.len() == 0 {
        Seq::empty()
    } else {
        let word = words.last();
        let at = find_char(word, '=') as int;
        if at < word.len() {
            pairs_of(words.drop_last()).push((word.take(at), word.skip(at + 1)))
        } else {
            pairs_of(words.drop_last())
        }
    }
}

/// Where the extra variables `text` come from: a file where the text begins with `@`, a
/// JSON object where it begins with `{`, and else the text itself, as words between
/// single spaces of the form `name=value`.
pub open spec fn extra_vars_spec(text: Seq<char>) -> ExtraVarsModel {
    if text.len() > 0 && text[0] == '@' {
        ExtraVarsModel::File(text.skip(1))
    } else if text.len() > 0 && text[0] == '{' {
        ExtraVarsModel::Json(text)
    } else {
        ExtraVarsModel::Pairs(pairs_of(split_on(text, ' ')))
    }
}

/// Decides where the extra variables `text` come from.
pub fn parse_extra_vars(text: &str) -> (source: ExtraVars)
    ensures
        source@ == extra_vars_spec(text@),
{
    let chars = chars_of(text);
    let n: usize = chars.len();
    if n > 0 && chars[0] == '@' {
        let path = text.substring_char(1, n);
        assert(text@.subrange(1, n as int) =~= text@.skip(1));
        return ExtraVars::File(path.to_owned());
    }
    if n > 0 && chars[0] == '{' {
        return ExtraVars::Json(text.to_owned());
    }
    let mut pairs: Vec<(String, String)> = Vec::new();
    let mut pos: usize = 0;
    let ghost mut seen: Seq<Seq<char>> = Seq::empty();
    proof {
        assert(text@.skip(0) =~= text@);
        assert(seen + split_on(text@, ' ') =~= split_on(text@, ' '));
        assert(pair_views(pairs@) =~= pairs_of(seen));
    }
    loop
        invariant_except_break
            split_on(text@, ' ') == seen + split_on(text@.skip(pos as int), ' '),
            pair_views(pairs@) == pairs_of(seen),
        invariant
            chars@ == text@,
            n == chars.len(),
            pos <= n,
        ensures
            pair_views(pairs@) == pairs_of(split_on(text@, ' ')),
        decreases n - pos,
    {
        let ghost rest = text@.skip(pos as int);
        let end: usize = skip_forward(&chars, pos, n, CharClass::Except(' '));
        let at: usize = skip_forward(&chars, pos, end, CharClass::Except('='));
        let ghost word = chars@.subrange(pos as int, end as int);
        proof {
            assert(chars@.subrange(pos as int, n as int) =~= rest);
            lemma_split_on_unfold(rest, ' ');
            assert(rest.take(end - pos) =~= word);
            assert(seen.push(word).drop_last() =~= seen);
        }
        if at < end {
            let name = text.substring_char(pos, at).to_owned();
            let value = text.substring_char(at + 1, end).to_owned();
            proof {
                assert(word.take(at - pos) =~= text@.subrange(pos as int, at as int));
                assert(word.skip(at - pos + 1) =~= text@.subrange(at + 1, end as int));
                assert(pair_views(pairs@.push((name, value))) =~= pair_views(pairs@).push(
                    (name@, value@),
                ));
            }
            pairs.push((name, value));
        }
        proof {
            let tail = split_on(rest, ' ').drop_first();
            assert(seen + split_on(rest, ' ') =~= seen.push(word) + tail);
            seen = seen.push(word);
            if end < n {
                assert(rest.skip(end - pos + 1) =~= text@.skip(end + 1));
            } else {
                assert(seen + Seq::<Seq<char>>::empty() =~= seen);
            }
        }
        if end == n {
            break ;
        }
        pos = end + 1;
    }
    ExtraVars::Pairs(pairs)
}

/// The context once each of `pairs` is bound, in order, to its value as a string.
pub open spec fn bind_texts(vars: Seq<Binding>, pairs: Seq<TextPair>) -> Seq<Binding>
    decreases pairs.len(),
{
    if pairs.len() == 0 {
        vars
    } else {
        bind(bind_texts(vars, pairs.drop_last()), pairs.last().0, JsonModel::Str(pairs.last().1))
    }
}

/// The context once each of `members` is bound, in order, to its value.
pub open spec fn bind_members(vars: Seq<Binding>, members: Seq<MemberModel>) -> Seq<Binding>
    decreases members.len(),
{
    if members.len() == 0 {
        vars
    } else {
        bind(bind_members(vars, members.drop_last()), members.last().name, members.last().value)
    }
}

/// The models of a sequence of named values.
pub open spec fn member_views(members: Seq<(String, Json)>) -> Seq<MemberModel> {
    Seq::new(members.len(), |i: int| MemberModel { name: members[i].0@, value: members[i].1@ })
}

/// Binds each name of `pairs` to its value, as a string.
pub fn set_pairs(context: &mut Context, pairs: Vec<(String, String)>)
    ensures
        final(context)@ == bind_texts(old(context)@, pair_views(pairs@)),
{
    let ghost all = pair_views(pairs@);
    let ghost start = context@;
    let mut i: usize = 0;
    assert(all.take(0) =~= Seq::<TextPair>::empty());
    while i < pairs.len()
        invariant
            i <= pairs.len(),
            all == pair_views(pairs@),
            start == old(context)@,
            context@ == bind_texts(start, all.take(i as int)),
        decreases pairs.len() - i,
    {
        proof {
            let next = all.take(i + 1);
            assert(next.drop_last() =~= all.take(i as int));
            assert(next.last() == all[i as int]);
        }
        context.insert(pairs[i].0.clone(), Json::Str(pairs[i].1.clone()));
        i += 1;
    }
    assert(all.take(i as int) =~= all);
}

/// Binds each name of `members` to its value.
pub fn set_members(context: &mut Context, members: Vec<(String, Json)>)
    ensures
        final(context)@ == bind_members(old(context)@, member_views(members@)),
{
    let ghost all = member_views(members@);
    let ghost start = context@;
    let mut i: usize = 0;
    assert(all.take(0) =~= Seq::<MemberModel>::empty());
    while i < members.len()
        invariant
            i <= members.len(),
            all == member_views(members@),
            start == old(context)@,
            context@ == bind_members(start, all.take(i as int)),
        decreases members.len() - i,
    {
        proof {
            let next = all.take(i + 1);
            assert(next.drop_last() =~= all.take(i as int));
            assert(next.last() == all[i as int]);
        }
        context.insert(members[i].0.clone(), members[i].1.clone());
        i += 1;
    }
    assert(all.take(i as int) =~= all);
}

/// Why extra variables could not be taken in.
#[derive(Debug, Clone, PartialEq, Eq)]
pub struct ExtraVarsError {
    /// What is wrong with them.
    pub message: String,
}

/// What is left of the context once the members of a JSON object are bound in it, given
/// what the JSON parser has made of the object's text; and what is wrong where the text
/// is not JSON, or is JSON and no object.
pub open spec fn json_vars_spec(vars: Seq<Binding>, parsed: Result<JsonModel, Seq<char>>) -> (
    Seq<Binding>,
    Option<Seq<char>>,
) {
    match parsed {
        Ok(JsonModel::Object(members)) => (bind_members(vars, members), None),
        Ok(_) => (vars, Some("extra variables in JSON must be an object"@)),
        Err(message) => (vars, Some(message)),
    }
}

/// The model of what the taking in of extra variables returns.
pub open spec fn extra_error_view(r: Result<(), ExtraVarsError>) -> Option<Seq<char>> {
    match r {
        Ok(_) => None,
        Err(e) => Some(e.message@),
    }
}

/// Binds the members of a JSON object, given what the JSON parser has made of its text.
pub fn set_parsed_vars(context: &mut Context, parsed: Result<Json, String>) -> (r: Result<
    (),
    ExtraVarsError,
>)
    ensures
        (final(context)@, extra_error_view(r)) == json_vars_spec(
            old(context)@,
            crate::json::parsed_view(parsed),
        ),
{
    match parsed {
        Ok(Json::Object(members)) => {
            proof {
                crate::json::lemma_object_view(members);
                assert(member_views(members@) =~= Json::Object(members)@->Object_0);
            }
            set_members(context, members);
            Ok(())
        },
        Ok(_) => Err(
            ExtraVarsError { message: "extra variables in JSON must be an object".to_owned() },
        ),
        Err(message) => Err(ExtraVarsError { message }),
    }
}

/// Binds the members of the JSON object that `text` holds.
pub fn set_json_vars(context: &mut Context, text: &str) -> (r: Result<(), ExtraVarsError>)
    ensures
        (final(context)@, extra_error_view(r)) == json_vars_spec(
            old(context)@,
            json_parse(text@),
        ),
{
    let parsed = parse_json(text);
    set_parsed_vars(context, parsed)
}

/// The hosts that a deployment names: the parts of `hosts` between commas, each without
/// the white space around it.
pub open spec fn hosts_spec(hosts: Seq<char>) -> Seq<Seq<char>> {
    Seq::new(split_on(hosts, ',').len(), |i: int| trim(split_on(hosts, ',')[i]))
}

/// Splits the host list of a deployment.
pub fn split_hosts(hosts: &str) -> (names: Vec<String>)
    ensures
        views(names@) == hosts_spec(hosts@),
{
    let chars = chars_of(hosts);
    let n: usize = chars.len();
    let mut names: Vec<String> = Vec::new();
    let mut pos: usize = 0;
    let ghost mut seen: Seq<Seq<char>> = Seq::empty();
    proof {
        assert(hosts@.skip(0) =~= hosts@);
        assert(seen + split_on(hosts@, ',') =~= split_on(hosts@, ','));
    }
    loop
        invariant_except_break
            split_on(hosts@, ',') == seen + split_on(hosts@.skip(pos as int), ','),
        invariant
            chars@ == hosts@,
            n == chars.len(),
            pos <= n,
            names@.len() == seen.len(),
            forall|k: int| 0 <= k < seen.len() ==> (#[trigger] names@[k])@ == trim(seen[k]),
        ensures
            seen == split_on(hosts@, ','),
        decreases n - pos,
    {
        let ghost rest = hosts@.skip(pos as int);
        let end: usize = skip_forward(&chars, pos, n, CharClass::Except(','));
        let (a, b) = trim_range(&chars, pos, end);
        let ghost part = chars@.subrange(pos as int, end as int);
        proof {
            assert(chars@.subrange(pos as int, n as int) =~= rest);
            lemma_split_on_unfold(rest, ',');
            assert(rest.take(end - pos) =~= part);
            let tail = split_on(rest, ',').drop_first();
            assert(seen + split_on(rest, ',') =~= seen.push(part) + tail);
            if end < n {
                assert(rest.skip(end - pos + 1) =~= hosts@.skip(end + 1));
            } else {
                assert(seen.push(part) + Seq::<Seq<char>>::empty() =~= seen.push(part));
            }
            seen = seen.push(part);
        }
        names.push(hosts.substring_char(a, b).to_owned());
        if end == n {
            break ;
        }
        pos = end + 1;
    }
    assert(views(names@) =~= hosts_spec(hosts@));
    names
}

/// A named unit of work: tasks to run on each of the hosts it names.
#[derive(Debug)]
pub struct Deployment {
    /// The display name.
    pub name: String,
    /// The hosts, as inventory keys between commas.
    pub hosts: String,
    /// The working directory that the tasks inherit, a template.
    pub chdir: Option<String>,
    /// Variables to set before the tasks run.
    pub vars: Option<IndexMap<String, String>>,
    /// The tasks, in order.
    pub tasks: Vec<Task>,
}

/// The mathematical model of a [`Deployment`].
pub struct DeploymentModel {
    pub name: Seq<char>,
    pub hosts: Seq<char>,
    pub chdir: Option<Seq<char>>,
    pub vars: Option<Seq<TextPair>>,
    pub tasks: Seq<TaskModel>,
}

impl View for Deployment {
    type V = DeploymentModel;

    open spec fn view(&self) -> DeploymentModel {
        DeploymentModel {
            name: self.name@,
            hosts: self.hosts@,
            chdir: opt_view(self.chdir),
            vars: opt_entries(self.vars),
            tasks: task_views(self.tasks@),
        }
    }
}

/// The context once the variables of a deployment are set, and the failure that has
/// ended the setting, if any.
pub open spec fn deployment_vars_spec(d: DeploymentModel, vars: Seq<Binding>) -> (
    Seq<Binding>,
    Option<RenderErrorModel>,
) {
    match d.vars {
        Some(entries) => merge_spec(entries, vars),
        None => (vars, None),
    }
}

/// The model of the outcome of a deployment's beginning.
pub open spec fn begun_view(r: Result<Vec<String>, RenderError>) -> Result<
    Seq<Seq<char>>,
    RenderErrorModel,
> {
    match r {
        Ok(hosts) => Ok(views(hosts@)),
        Err(e) => Err(e@),
    }
}

impl Deployment {
    /// Begins the deployment: sets its variables in the context, in their order, and
    /// gives the hosts that it names. A variable whose template stands for nothing ends
    /// the run.
    pub fn begin(&self, context: &mut Context) -> (r: Result<Vec<String>, RenderError>)
        ensures
            final(context)@ == deployment_vars_spec(self@, old(context)@).0,
            begun_view(r) == (match deployment_vars_spec(self@, old(context)@).1 {
                Some(e) => Err(e),
                None => Ok(hosts_spec(self.hosts@)),
            }),
    {
        let hosts = split_hosts(self.hosts.as_str());
        match &self.vars {
            Some(vars) => {
                match merge_vars(vars, context) {
                    Ok(_) => {},
                    Err(e) => {
                        return Err(e);
                    },
                }
            },
            None => {},
        }
        Ok(hosts)
    }
}

/// A host of the inventory.
#[derive(Debug, Clone, PartialEq, Eq)]
pub struct TargetHost {
    /// The address, or `localhost`.
    pub host: String,
    /// The port; 22 where none is given.
    pub port: Option<u16>,
    /// The user to log in as.
    pub user: Option<String>,
    /// The password.
    pub password: Option<String>,
    /// The file of the private key.
    pub ssh_key_path: Option<String>,
}

/// The mathematical model of a [`TargetHost`].
pub struct TargetHostModel {
    pub host: Seq<char>,
    pub port: Option<u16>,
    pub user: Option<Seq<char>>,
    pub password: Option<Seq<char>>,
    pub ssh_key_path: Option<Seq<char>>,
}

impl View for TargetHost {
    type V = TargetHostModel;

    open spec fn view(&self) -> TargetHostModel {
        TargetHostModel {
            host: self.host@,
            port: self.port,
            user: opt_view(self.user),
            password: opt_view(self.password),
            ssh_key_path: opt_view(self.ssh_key_path),
        }
    }
}

/// Why a host could not be reached.
#[derive(Debug, Clone, PartialEq, Eq)]
pub enum ConnectError {
    /// The inventory does not know the host. The run goes on with the next host.
    MissingHostConfig(String),
    /// There is nothing to log in with, or the login was refused.
    AuthenticationFailure(String),
}

/// The mathematical model of a [`ConnectError`].
pub enum ConnectErrorModel {
    MissingHostConfig(Seq<char>),
    AuthenticationFailure(Seq<char>),
}

impl View for ConnectError {
    type V = ConnectErrorModel;

    open spec fn view(&self) -> ConnectErrorModel {
        match self {
            ConnectError::MissingHostConfig(host) => ConnectErrorModel::MissingHostConfig(host@),
            ConnectError::AuthenticationFailure(message) => {
                ConnectErrorModel::AuthenticationFailure(message@)
            },
        }
    }
}

/// What a login is made with.
#[derive(Debug, Clone, PartialEq, Eq)]
pub enum Credential {
    /// The file of a private key, as the inventory names it.
    KeyFile(String),
    /// A password.
    Password(String),
}

/// The mathematical model of a [`Credential`].
pub enum CredentialModel {
    KeyFile(Seq<char>),
    Password(Seq<char>),
}

impl View for Credential {
    type V = CredentialModel;

    open spec fn view(&self) -> CredentialModel {
        match self {
            Credential::KeyFile(path) => CredentialModel::KeyFile(path@),
            Credential::Password(password) => CredentialModel::Password(password@),
        }
    }
}

/// How a host is reached.
#[derive(Debug, Clone, PartialEq, Eq)]
pub enum Target {
    /// Commands run as local processes.
    Local,
    /// Commands run over a session with the host.
    Remote {
        /// The address.
        host: String,
        /// The port.
        port: u16,
        /// The user.
        user: String,
        /// What to log in with.
        credential: Credential,
    },
}

/// The mathematical model of a [`Target`].
pub enum TargetModel {
    Local,
    Remote { host: Seq<char>, port: u16, user: Seq<char>, credential: CredentialModel },
}

impl View for Target {
    type V = TargetModel;

    open spec fn view(&self) -> TargetModel {
        match self {
            Target::Local => TargetModel::Local,
            Target::Remote { host, port, user, credential } => TargetModel::Remote {
                host: host@,
                port: *port,
                user: user@,
                credential: credential@,
            },
        }
    }
}

/// What a login is made with: the key file where there is one, else the password, and
/// where there is neither, nothing.
pub open spec fn credential_spec(password: Option<Seq<char>>, ssh_key_path: Option<Seq<char>>)
    -> Result<CredentialModel, ConnectErrorModel> {
    match ssh_key_path {
        Some(path) => Ok(CredentialModel::KeyFile(path)),
        None => match password {
            Some(p) => Ok(CredentialModel::Password(p)),
            None => Err(
                ConnectErrorModel::AuthenticationFailure(
                    "Either ssh_key_path or password must be provided"@,
                ),
            ),
        },
    }
}

/// The model of a credential, or of the failure in its place.
pub open spec fn credential_view(r: Result<Credential, ConnectError>) -> Result<
    CredentialModel,
    ConnectErrorModel,
> {
    match r {
        Ok(c) => Ok(c@),
        Err(e) => Err(e@),
    }
}

/// Chooses what a login is made with.
pub fn choose_credential(password: &Option<String>, ssh_key_path: &Option<String>) -> (r: Result<
    Credential,
    ConnectError,
>)
    ensures
        credential_view(r) == credential_spec(opt_view(*password), opt_view(*ssh_key_path)),
{
    match ssh_key_path {
        Some(path) => Ok(Credential::KeyFile(path.clone())),
        None => match password {
            Some(p) => Ok(Credential::Password(p.clone())),
            None => Err(
                ConnectError::AuthenticationFailure(
                    "Either ssh_key_path or password must be provided".to_owned(),
                ),
            ),
        },
    }
}

/// How a remote host is reached, given where it is and who logs in: with the credential
/// chosen as above.
pub open spec fn session_spec(
    host: Seq<char>,
    port: u16,
    user: Seq<char>,
    password: Option<Seq<char>>,
    ssh_key_path: Option<Seq<char>>,
) -> Result<TargetModel, ConnectErrorModel> {
    match credential_spec(password, ssh_key_path) {
        Err(e) => Err(e),
        Ok(credential) => Ok(TargetModel::Remote { host, port, user, credential }),
    }
}

/// How the host `target` is reached: `localhost` locally, whatever else the entry holds;
/// any other host over a session, on port 22 unless the entry names another, as the user
/// that the entry must name, with the credential chosen as above.
pub open spec fn target_spec(target: TargetHostModel) -> Result<TargetModel, ConnectErrorModel> {
    if target.host == "localhost"@ {
        Ok(TargetModel::Local)
    } else {
        match target.user {
            None => Err(ConnectErrorModel::AuthenticationFailure("Missing user for remote host"@)),
            Some(user) => session_spec(
                target.host,
                match target.port {
                    Some(p) => p,
                    None => 22u16,
                },
                user,
                target.password,
                target.ssh_key_path,
            ),
        }
    }
}

/// The model of a target, or of the failure in its place.
pub open spec fn target_view(r: Result<Target, ConnectError>) -> Result<
    TargetModel,
    ConnectErrorModel,
> {
    match r {
        Ok(t) => Ok(t@),
        Err(e) => Err(e@),
    }
}

/// Prepares the session with a remote host: decides what the login is made with, and
/// fails where there is nothing to log in with.
pub fn setup_ssh_session(
    host: &str,
    port: u16,
    user: &str,
    password: &Option<String>,
    ssh_key_path: &Option<String>,
) -> (r: Result<Target, ConnectError>)
    ensures
        target_view(r) == session_spec(
            host@,
            port,
            user@,
            opt_view(*password),
            opt_view(*ssh_key_path),
        ),
{
    match choose_credential(password, ssh_key_path) {
        Ok(credential) => Ok(
            Target::Remote { host: host.to_owned(), port, user: user.to_owned(), credential },
        ),
        Err(e) => Err(e),
    }
}

/// Decides how a host of the inventory is reached.
pub fn resolve_target(target: &TargetHost) -> (r: Result<Target, ConnectError>)
    ensures
        target_view(r) == target_spec(target@),
{
    if same_text(target.host.as_str(), "localhost") {
        return Ok(Target::Local);
    }
    let port: u16 = match target.port {
        Some(p) => p,
        None => 22,
    };
    match &target.user {
        Some(user) => setup_ssh_session(
            target.host.as_str(),
            port,
            user.as_str(),
            &target.password,
            &target.ssh_key_path,
        ),
        None => Err(
            ConnectError::AuthenticationFailure("Missing user for remote host".to_owned()),
        ),
    }
}

/// The model of an entry that may be absent.
pub open spec fn opt_host(entry: Option<&TargetHost>) -> Option<TargetHostModel> {
    match entry {
        Some(target) => Some(target@),
        None => None,
    }
}

/// How the host with the key `name` is reached, given the entry that the inventory holds
/// for it: a host without entry is missing from the inventory.
pub open spec fn host_target_spec(name: Seq<char>, entry: Option<TargetHostModel>) -> Result<
    TargetModel,
    ConnectErrorModel,
> {
    match entry {
        Some(target) => target_spec(target),
        None => Err(ConnectErrorModel::MissingHostConfig(name)),
    }
}

/// Decides how a host is reached that the inventory may not know.
pub fn lookup_target(name: &str, entry: Option<&TargetHost>) -> (r: Result<Target, ConnectError>)
    ensures
        target_view(r) == host_target_spec(name@, opt_host(entry)),
{
    match entry {
        Some(target) => resolve_target(target),
        None => Err(ConnectError::MissingHostConfig(name.to_owned())),
    }
}

/// Whether a failure to reach a host lets the run go on with the next host: only an
/// unknown host does.
pub fn is_recoverable(error: &ConnectError) -> (b: bool)
    ensures
        b == (error@ is MissingHostConfig),
{
    match error {
        ConnectError::MissingHostConfig(_) => true,
        ConnectError::AuthenticationFailure(_) => false,
    }
}

/// What a login has come to: a failure unless the session says that it is authenticated.
pub fn confirm_login(authenticated: bool) -> (r: Result<(), ConnectError>)
    ensures
        r is Ok == authenticated,
        r matches Err(e) ==> e@ == ConnectErrorModel::AuthenticationFailure(
            "Authentication failed"@,
        ),
{
    if authenticated {
        Ok(())
    } else {
        Err(ConnectError::AuthenticationFailure("Authentication failed".to_owned()))
    }
}

/// Whether a path begins with `~`, the sign for the home directory.
pub open spec fn begins_with_tilde(path: Seq<char>) -> bool {
    path.len() > 0 && path[0] == '~'
}

/// `simple_expand_tilde::expand_tilde`, with the path that it gives back as text. A path
/// that does not begin with `~` comes back as it is, whatever the environment. Of any
/// other path the environment decides: it comes back with the home directory in place of
/// the `~`, or not at all where no home directory is known or where the expanded path
/// cannot be written as text.
#[verifier::external_body]
fn expand_home(path: &str) -> (expanded: Option<String>)
    ensures
        match expanded {
            Some(file) => begins_with_tilde(path@) || file@ == path@,
            None => begins_with_tilde(path@),
        },
{
    simple_expand_tilde::expand_tilde(path).and_then(|p| p.into_os_string().into_string().ok())
}

/// The key file to log in with, given what the expansion of its path has brought: the
/// expanded path, or a failure where the home directory could not be found.
pub fn key_file_of(expanded: Option<String>) -> (r: Result<String, ConnectError>)
    ensures
        match r {
            Ok(file) => expanded == Some(file),
            Err(e) => expanded is None && e@ == ConnectErrorModel::AuthenticationFailure(
                "Failed to resolve home directory"@,
            ),
        },
{
    match expanded {
        Some(file) => Ok(file),
        None => Err(
            ConnectError::AuthenticationFailure("Failed to resolve home directory".to_owned()),
        ),
    }
}

/// The key file to log in with: the path `path` with a leading `~` expanded. A path that
/// does not begin with `~` is the key file as it stands. A path that does is expanded as
/// the environment has it, and the one failure is that the home directory could not be
/// found.
pub fn key_file(path: &str) -> (r: Result<String, ConnectError>)
    ensures
        match r {
            Ok(file) => begins_with_tilde(path@) || file@ == path@,
            Err(e) => begins_with_tilde(path@) && e@ == ConnectErrorModel::AuthenticationFailure(
                "Failed to resolve home directory"@,
            ),
        },
{
    key_file_of(expand_home(path))
}

} // verus!
