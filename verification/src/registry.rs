//! Email routing rules and registries: which registries an application may
//! send through, and which configuration a registry provides.

use vstd::prelude::*;
use vstd::string::*;
use crate::appdata::env_app_name;
use crate::reply::{Reply, ReplyModel, plain_reply, reply_model};
use crate::text::{contains_text, join, split_trimmed, split_trimmed_parts, str_eq, text_contains, views};

verus! {

/// An SMTP relay configuration.
#[derive(Debug)]
pub struct EmailSmtp {
    pub provider: String,
    pub host: String,
    pub port: u64,
    pub user: String,
    pub pass: String,
}

/// An HTTP API configuration.
#[derive(Debug)]
pub struct EmailApi {
    pub provider: String,
    pub host: String,
    pub api_key: String,
}

/// A registry's usable configuration.
#[derive(Debug)]
pub enum EmailConfig {
    Smtp(EmailSmtp),
    Api(EmailApi),
}

/// The fields of a registry's JSON configuration that are read: each is
/// present when the JSON member exists with the right type (a string, or
/// for `port` an unsigned integer).
#[derive(Debug)]
pub struct EmailConf {
    pub provider: Option<String>,
    pub channel: Option<String>,
    pub host: Option<String>,
    pub port: Option<u64>,
    pub user: Option<String>,
    pub pass: Option<String>,
    pub api_key: Option<String>,
}

/// A routing rule: the registry it grants and its comma-separated tags.
#[derive(Debug)]
pub struct EmailRules {
    pub email_registry_uid: String,
    pub tags: String,
}

/// An active registry: its sender address and configuration.
#[derive(Debug)]
pub struct EmailRegistry {
    pub sender_email: String,
    pub email_conf: EmailConf,
}

pub enum ConfigModel {
    Smtp { provider: Seq<char>, host: Seq<char>, port: u64, user: Seq<char>, pass: Seq<char> },
    Api { provider: Seq<char>, host: Seq<char>, api_key: Seq<char> },
}

impl View for EmailConfig {
    type V = ConfigModel;

    open spec fn view(&self) -> ConfigModel {
        match self {
            EmailConfig::Smtp(c) => ConfigModel::Smtp {
                provider: c.provider@,
                host: c.host@,
                port: c.port,
                user: c.user@,
                pass: c.pass@,
            },
            EmailConfig::Api(c) => ConfigModel::Api { provider: c.provider@, host: c.host@, api_key: c.api_key@ },
        }
    }
}

/// The configuration a registry offers, if it is complete: an "smtp"
/// channel with host, port, user and password, or an "api" channel with
/// host and API key.
pub open spec fn usable_config(c: EmailConf) -> Option<ConfigModel> {
    match (c.provider, c.channel) {
        (Some(provider), Some(channel)) => if channel@ == "smtp"@ {
            match (c.host, c.port, c.user, c.pass) {
                (Some(h), Some(p), Some(u), Some(pw)) => Some(
                    ConfigModel::Smtp { provider: provider@, host: h@, port: p, user: u@, pass: pw@ },
                ),
                _ => None,
            }
        } else if channel@ == "api"@ {
            match (c.host, c.api_key) {
                (Some(h), Some(k)) => Some(ConfigModel::Api { provider: provider@, host: h@, api_key: k@ }),
                _ => None,
            }
        } else {
            None
        },
        _ => None,
    }
}

fn usable_config_exec(c: &EmailConf) -> (r: Option<EmailConfig>)
    ensures
        match r {
            Some(x) => usable_config(*c) == Some(x@),
            None => usable_config(*c) is None,
        },
{
    match (&c.provider, &c.channel) {
        (Some(provider), Some(channel)) => {
            if str_eq(channel.as_str(), "smtp") {
                match (&c.host, c.port, &c.user, &c.pass) {
                    (Some(h), Some(p), Some(u), Some(pw)) => Some(
                        EmailConfig::Smtp(
                            EmailSmtp {
                                provider: provider.clone(),
                                host: h.clone(),
                                port: p,
                                user: u.clone(),
                                pass: pw.clone(),
                            },
                        ),
                    ),
                    _ => None,
                }
            } else if str_eq(channel.as_str(), "api") {
                match (&c.host, &c.api_key) {
                    (Some(h), Some(k)) => Some(
                        EmailConfig::Api(EmailApi { provider: provider.clone(), host: h.clone(), api_key: k.clone() }),
                    ),
                    _ => None,
                }
            } else {
                None
            }
        },
        _ => None,
    }
}

/// The first usable configuration among the registries, in order.
pub open spec fn first_usable(cs: Seq<EmailConf>) -> Option<ConfigModel>
    decreases cs.len(),
{
    if cs.len() == 0 {
        None
    } else {
        match usable_config(cs[0]) {
            Some(c) => Some(c),
            None => first_usable(cs.drop_first()),
        }
    }
}

proof fn lemma_first_usable_skip(cs: Seq<EmailConf>, i: int)
    requires
        0 <= i <= cs.len(),
        forall|j: int| 0 <= j < i ==> usable_config(#[trigger] cs[j]) is None,
    ensures
        first_usable(cs) == first_usable(cs.subrange(i, cs.len() as int)),
    decreases i,
{
    if i > 0 {
        assert(cs.drop_first().subrange(i - 1, cs.drop_first().len() as int) =~= cs.subrange(i, cs.len() as int));
        assert(usable_config(cs[0]) is None);
        assert forall|j: int| 0 <= j < i - 1 implies usable_config(#[trigger] cs.drop_first()[j]) is None by {
            assert(cs.drop_first()[j] == cs[j + 1]);
        }
        lemma_first_usable_skip(cs.drop_first(), i - 1);
    } else {
        assert(cs.subrange(0, cs.len() as int) =~= cs);
    }
}

/// The outcome of choosing a relay configuration among the active
/// registries, with the proxy's error messages.
pub open spec fn proxy_config_outcome(cs: Seq<EmailConf>) -> Result<ConfigModel, Seq<char>> {
    if cs.len() == 0 {
        Err("no active email registry found"@)
    } else {
        match first_usable(cs) {
            Some(c) => Ok(c),
            None => Err("no available registry can be used"@),
        }
    }
}

/// Chooses the configuration for the SMTP proxy: the first registry with a
/// complete SMTP or API configuration.
pub fn proxy_email_config(confs: &Vec<EmailConf>) -> (r: Result<EmailConfig, String>)
    ensures
        match r {
            Ok(c) => proxy_config_outcome(confs@) == Ok::<ConfigModel, Seq<char>>(c@),
            Err(e) => proxy_config_outcome(confs@) == Err::<ConfigModel, Seq<char>>(e@),
        },
{
    if confs.len() == 0 {
        return Err(String::from_str("no active email registry found"));
    }
    let mut i: usize = 0;
    while i < confs.len()
        invariant
            i <= confs@.len(),
            forall|j: int| 0 <= j < i ==> usable_config(#[trigger] confs@[j]) is None,
        decreases confs@.len() - i,
    {
        match usable_config_exec(&confs[i]) {
            Some(c) => {
                proof {
                    lemma_first_usable_skip(confs@, i as int);
                    assert(confs@.subrange(i as int, confs@.len() as int)[0] == confs@[i as int]);
                }
                return Ok(c);
            },
            None => {},
        }
        i = i + 1;
    }
    proof {
        lemma_first_usable_skip(confs@, i as int);
    }
    Err(String::from_str("no available registry can be used"))
}

/// Whether a rule's tags text contains the wildcard "#*".
pub open spec fn is_wildcard_rule(r: EmailRules) -> bool {
    contains_text(r.tags@, "#*"@)
}

/// The registry of every rule whose tags contain "#*", in rule order.
pub open spec fn wildcard_uids(rules: Seq<EmailRules>) -> Seq<Seq<char>>
    decreases rules.len(),
{
    if rules.len() == 0 {
        Seq::empty()
    } else {
        let rest = wildcard_uids(rules.drop_last());
        if is_wildcard_rule(rules.last()) {
            rest.push(rules.last().email_registry_uid@)
        } else {
            rest
        }
    }
}

pub fn wildcard_registry_uids(rules: &Vec<EmailRules>) -> (r: Vec<String>)
    ensures
        views(r@) == wildcard_uids(rules@),
{
    let mut out: Vec<String> = Vec::new();
    let mut i: usize = 0;
    while i < rules.len()
        invariant
            i <= rules@.len(),
            views(out@) == wildcard_uids(rules@.subrange(0, i as int)),
        decreases rules@.len() - i,
    {
        let ghost before = out@;
        if text_contains(rules[i].tags.as_str(), "#*") {
            out.push(rules[i].email_registry_uid.clone());
            assert(views(out@) =~= views(before).push(rules@[i as int].email_registry_uid@));
        }
        proof {
            let pre = rules@.subrange(0, i + 1);
            assert(pre.drop_last() =~= rules@.subrange(0, i as int));
            assert(pre.last() == rules@[i as int]);
        }
        i = i + 1;
    }
    assert(rules@.subrange(0, rules@.len() as int) =~= rules@);
    out
}

/// The outcome of the proxy's rule check for a credential's rules.
pub open spec fn proxy_uids_outcome(rules: Seq<EmailRules>) -> Result<Seq<Seq<char>>, Seq<char>> {
    if rules.len() == 0 {
        Err("no email rules allowed for this credential"@)
    } else if wildcard_uids(rules).len() == 0 {
        Err("no email registry found for this credential"@)
    } else {
        Ok(wildcard_uids(rules))
    }
}

/// The registries the SMTP proxy may use for a credential: those of its
/// wildcard ("#*") rules.
pub fn proxy_registry_uids(rules: &Vec<EmailRules>) -> (r: Result<Vec<String>, String>)
    ensures
        match r {
            Ok(v) => proxy_uids_outcome(rules@) == Ok::<Seq<Seq<char>>, Seq<char>>(views(v@)),
            Err(e) => proxy_uids_outcome(rules@) == Err::<Seq<Seq<char>>, Seq<char>>(e@),
        },
{
    if rules.len() == 0 {
        return Err(String::from_str("no email rules allowed for this credential"));
    }
    let uids = wildcard_registry_uids(rules);
    if uids.len() == 0 {
        return Err(String::from_str("no email registry found for this credential"));
    }
    Ok(uids)
}

/// The arguments of the rule query for an application: "*:*",
/// "*:<app>" and "<env>:<app>".
pub fn rules_query_args(env: &str, app: &str) -> (r: Vec<String>)
    ensures
        views(r@) == seq!["*:*"@, "*:"@ + app@, env_app_name(env@, app@)],
{
    let mut any_app = String::from_str("*:");
    any_app.append(app);
    let v = vec![String::from_str("*:*"), any_app, crate::appdata::env_app(env, app)];
    assert(views(v@) =~= seq!["*:*"@, "*:"@ + app@, env_app_name(env@, app@)]);
    v
}

/// The registry `uid` once for every tag equal to the purpose.
pub open spec fn tag_grants(tags: Seq<Seq<char>>, purpose: Seq<char>, uid: Seq<char>) -> Seq<Seq<char>>
    decreases tags.len(),
{
    if tags.len() == 0 {
        Seq::empty()
    } else {
        let rest = tag_grants(tags.drop_last(), purpose, uid);
        if tags.last() == purpose {
            rest.push(uid)
        } else {
            rest
        }
    }
}

/// For one rule: its registry once if its tags contain "#*", and once more
/// for every tag equal to the purpose.
pub open spec fn rule_grants(r: EmailRules, purpose: Seq<char>) -> Seq<Seq<char>> {
    let wildcard = if is_wildcard_rule(r) { seq![r.email_registry_uid@] } else { Seq::empty() };
    wildcard + tag_grants(split_trimmed(r.tags@, ','), purpose, r.email_registry_uid@)
}

/// The registries the rules grant for a purpose tag, in rule order.
pub open spec fn purpose_uids(rules: Seq<EmailRules>, purpose: Seq<char>) -> Seq<Seq<char>>
    decreases rules.len(),
{
    if rules.len() == 0 {
        Seq::empty()
    } else {
        purpose_uids(rules.drop_last(), purpose) + rule_grants(rules.last(), purpose)
    }
}

fn rule_grants_exec(r: &EmailRules, purpose: &str, out: &mut Vec<String>)
    ensures
        views(final(out)@) == views(old(out)@) + rule_grants(*r, purpose@),
{
    let ghost start = views(out@);
    let ghost uid = r.email_registry_uid@;
    if text_contains(r.tags.as_str(), "#*") {
        out.push(r.email_registry_uid.clone());
    }
    let ghost wildcard = if is_wildcard_rule(*r) { seq![uid] } else { Seq::<Seq<char>>::empty() };
    assert(views(out@) =~= start + wildcard);
    let tags = split_trimmed_parts(r.tags.as_str(), ',');
    let ghost tv = views(tags@);
    let mut i: usize = 0;
    while i < tags.len()
        invariant
            i <= tags@.len(),
            tv == views(tags@),
            uid == r.email_registry_uid@,
            views(out@) == start + wildcard + tag_grants(tv.subrange(0, i as int), purpose@, uid),
        decreases tags@.len() - i,
    {
        let ghost before = views(out@);
        let ghost pre = tv.subrange(0, i + 1);
        assert(pre.drop_last() =~= tv.subrange(0, i as int));
        assert(pre.last() == tags@[i as int]@);
        if str_eq(tags[i].as_str(), purpose) {
            out.push(r.email_registry_uid.clone());
            assert(views(out@) =~= before.push(uid));
        }
        assert(views(out@) =~= start + wildcard + tag_grants(pre, purpose@, uid));
        i = i + 1;
    }
    assert(tv.subrange(0, tags@.len() as int) =~= tv);
}

/// The registries that the rules grant for `purpose`.
pub fn registry_uids_for_purpose(rules: &Vec<EmailRules>, purpose: &str) -> (r: Vec<String>)
    ensures
        views(r@) == purpose_uids(rules@, purpose@),
{
    let mut out: Vec<String> = Vec::new();
    let mut i: usize = 0;
    while i < rules.len()
        invariant
            i <= rules@.len(),
            views(out@) == purpose_uids(rules@.subrange(0, i as int), purpose@),
        decreases rules@.len() - i,
    {
        rule_grants_exec(&rules[i], purpose, &mut out);
        proof {
            let pre = rules@.subrange(0, i + 1);
            assert(pre.drop_last() =~= rules@.subrange(0, i as int));
            assert(pre.last() == rules@[i as int]);
        }
        i = i + 1;
    }
    assert(rules@.subrange(0, rules@.len() as int) =~= rules@);
    out
}

/// The outcome of the send endpoint's rule check: the rules found for the
/// application and the purpose tag.
pub open spec fn send_uids_outcome(rules: Seq<EmailRules>, purpose: Seq<char>) -> Result<Seq<Seq<char>>, ReplyModel> {
    if rules.len() == 0 {
        Err(reply_model(403, "access_denied"@, "your application is not allowed to send email"@))
    } else if purpose_uids(rules, purpose).len() == 0 {
        Err(reply_model(403, "access_denied"@, "purpose tag '"@ + purpose + "' is not allowed"@))
    } else {
        Ok(purpose_uids(rules, purpose))
    }
}

/// The send endpoint's rule check.
pub fn send_registry_uids(rules: &Vec<EmailRules>, purpose: &str) -> (r: Result<Vec<String>, Reply>)
    ensures
        match r {
            Ok(v) => send_uids_outcome(rules@, purpose@) == Ok::<Seq<Seq<char>>, ReplyModel>(views(v@)),
            Err(e) => send_uids_outcome(rules@, purpose@) == Err::<Seq<Seq<char>>, ReplyModel>(e@),
        },
{
    if rules.len() == 0 {
        return Err(plain_reply(403, "access_denied", "your application is not allowed to send email"));
    }
    let uids = registry_uids_for_purpose(rules, purpose);
    if uids.len() == 0 {
        let mut m = String::from_str("purpose tag '");
        m.append(purpose);
        m.append("' is not allowed");
        return Err(plain_reply(403, "access_denied", m.as_str()));
    }
    Ok(uids)
}

/// The send endpoint's registry check: the first active registry.
pub fn first_registry(registries: &Vec<EmailRegistry>) -> (r: Result<&EmailRegistry, Reply>)
    ensures
        match r {
            Ok(reg) => registries@.len() > 0 && *reg == registries@[0],
            Err(e) => registries@.len() == 0 && e@ == reply_model(403, "access_denied"@, "no active email configuration registry found"@),
        },
{
    if registries.len() == 0 {
        return Err(plain_reply(403, "access_denied", "no active email configuration registry found"));
    }
    Ok(&registries[0])
}


proof fn lemma_purpose_uids_include(rules: Seq<EmailRules>, purpose: Seq<char>, i: int, j: int)
    requires
        0 <= i < rules.len(),
        0 <= j < rule_grants(rules[i], purpose).len(),
    ensures
        purpose_uids(rules, purpose).contains(rule_grants(rules[i], purpose)[j]),
    decreases rules.len(),
{
    let rest = purpose_uids(rules.drop_last(), purpose);
    let last = rule_grants(rules.last(), purpose);
    assert(purpose_uids(rules, purpose) == rest + last);
    if i == rules.len() - 1 {
        assert((rest + last)[rest.len() + j] == last[j]);
    } else {
        assert(rules.drop_last()[i] == rules[i]);
        lemma_purpose_uids_include(rules.drop_last(), purpose, i, j);
        let k = choose|k: int| 0 <= k < rest.len() && rest[k] == rule_grants(rules[i], purpose)[j];
        assert((rest + last)[k] == rest[k]);
    }
}

/// A rule whose tags contain "#*" grants its registry for every purpose.
pub proof fn lemma_wildcard_grants_every_purpose(rules: Seq<EmailRules>, i: int, purpose: Seq<char>)
    requires
        0 <= i < rules.len(),
        is_wildcard_rule(rules[i]),
    ensures
        purpose_uids(rules, purpose).contains(rules[i].email_registry_uid@),
{
    assert(rule_grants(rules[i], purpose)[0] == rules[i].email_registry_uid@);
    lemma_purpose_uids_include(rules, purpose, i, 0);
}

proof fn lemma_tag_grants_contains(tags: Seq<Seq<char>>, purpose: Seq<char>, uid: Seq<char>)
    requires
        tags.contains(purpose),
    ensures
        tag_grants(tags, purpose, uid).contains(uid),
    decreases tags.len(),
{
    let rest = tag_grants(tags.drop_last(), purpose, uid);
    if tags.last() == purpose {
        assert(tag_grants(tags, purpose, uid)[rest.len() as int] == uid);
    } else {
        let k = choose|k: int| 0 <= k < tags.len() && tags[k] == purpose;
        assert(tags.drop_last()[k] == purpose);
        lemma_tag_grants_contains(tags.drop_last(), purpose, uid);
        let j = choose|j: int| 0 <= j < rest.len() && rest[j] == uid;
        assert(tag_grants(tags, purpose, uid)[j] == uid);
    }
}

proof fn lemma_rule_grants_tagged(r: EmailRules, purpose: Seq<char>) -> (m: int)
    requires
        split_trimmed(r.tags@, ',').contains(purpose),
    ensures
        0 <= m < rule_grants(r, purpose).len(),
        rule_grants(r, purpose)[m] == r.email_registry_uid@,
{
    let uid = r.email_registry_uid@;
    let tags = split_trimmed(r.tags@, ',');
    let wildcard = if is_wildcard_rule(r) { seq![uid] } else { Seq::<Seq<char>>::empty() };
    let granted = tag_grants(tags, purpose, uid);
    lemma_tag_grants_contains(tags, purpose, uid);
    let j = choose|j: int| 0 <= j < granted.len() && granted[j] == uid;
    assert(rule_grants(r, purpose)[wildcard.len() + j] == granted[j]);
    wildcard.len() + j
}

/// A rule one of whose comma-separated tags is the purpose grants its
/// registry for that purpose.
pub proof fn lemma_tagged_rule_grants(rules: Seq<EmailRules>, i: int, purpose: Seq<char>)
    requires
        0 <= i < rules.len(),
        split_trimmed(rules[i].tags@, ',').contains(purpose),
    ensures
        purpose_uids(rules, purpose).contains(rules[i].email_registry_uid@),
{
    let m = lemma_rule_grants_tagged(rules[i], purpose);
    lemma_purpose_uids_include(rules, purpose, i, m);
}

/// Every registry the SMTP proxy may use for a set of rules (those of the
/// wildcard rules) is one the send endpoint grants for any purpose.
pub proof fn lemma_proxy_registries_serve_every_purpose(rules: Seq<EmailRules>, purpose: Seq<char>, uid: Seq<char>)
    requires
        wildcard_uids(rules).contains(uid),
    ensures
        purpose_uids(rules, purpose).contains(uid),
    decreases rules.len(),
{
    let rest = wildcard_uids(rules.drop_last());
    if rest.contains(uid) {
        lemma_proxy_registries_serve_every_purpose(rules.drop_last(), purpose, uid);
        let k = choose|k: int| 0 <= k < purpose_uids(rules.drop_last(), purpose).len()
            && purpose_uids(rules.drop_last(), purpose)[k] == uid;
        let tail = rule_grants(rules.last(), purpose);
        assert(purpose_uids(rules, purpose) == purpose_uids(rules.drop_last(), purpose) + tail);
        assert(purpose_uids(rules, purpose)[k] == uid);
    } else {
        let l = rules.len() - 1;
        assert(rules[l] == rules.last());
        assert(is_wildcard_rule(rules.last()));
        assert(uid == rules.last().email_registry_uid@) by {
            let k = choose|k: int| 0 <= k < wildcard_uids(rules).len() && wildcard_uids(rules)[k] == uid;
            if k < rest.len() {
                assert(wildcard_uids(rules)[k] == rest[k]);
            }
        }
        lemma_wildcard_grants_every_purpose(rules, l, purpose);
    }
}

proof fn lemma_tag_grants_only_matching(tags: Seq<Seq<char>>, purpose: Seq<char>, uid: Seq<char>, x: Seq<char>)
    requires
        tag_grants(tags, purpose, uid).contains(x),
    ensures
        x == uid,
        tags.contains(purpose),
    decreases tags.len(),
{
    let rest = tag_grants(tags.drop_last(), purpose, uid);
    let k = choose|k: int| 0 <= k < tag_grants(tags, purpose, uid).len() && tag_grants(tags, purpose, uid)[k] == x;
    if k < rest.len() {
        assert(rest[k] == x);
        lemma_tag_grants_only_matching(tags.drop_last(), purpose, uid, x);
        let j = choose|j: int| 0 <= j < tags.drop_last().len() && tags.drop_last()[j] == purpose;
        assert(tags[j] == purpose);
    } else {
        assert(tags.last() == purpose);
        assert(tags[tags.len() - 1] == purpose);
    }
}

/// A registry is granted for a purpose only by a rule naming it whose tags
/// contain "#*", or one of whose trimmed comma-separated tags is exactly the
/// purpose.
pub proof fn lemma_grants_only_from_matching_rules(rules: Seq<EmailRules>, purpose: Seq<char>, uid: Seq<char>)
    requires
        purpose_uids(rules, purpose).contains(uid),
    ensures
        exists|i: int|
            0 <= i < rules.len() && (#[trigger] rules[i]).email_registry_uid@ == uid && (is_wildcard_rule(rules[i])
                || split_trimmed(rules[i].tags@, ',').contains(purpose)),
    decreases rules.len(),
{
    let rest = purpose_uids(rules.drop_last(), purpose);
    let r = rules.last();
    let g = rule_grants(r, purpose);
    assert(purpose_uids(rules, purpose) == rest + g);
    let k = choose|k: int| 0 <= k < (rest + g).len() && (rest + g)[k] == uid;
    let l = rules.len() - 1;
    assert(rules[l] == r);
    if k < rest.len() {
        assert(rest[k] == uid);
        lemma_grants_only_from_matching_rules(rules.drop_last(), purpose, uid);
        let i = choose|i: int|
            0 <= i < rules.drop_last().len() && (#[trigger] rules.drop_last()[i]).email_registry_uid@ == uid && (
            is_wildcard_rule(rules.drop_last()[i]) || split_trimmed(rules.drop_last()[i].tags@, ',').contains(purpose));
        assert(rules[i] == rules.drop_last()[i]);
    } else {
        let m = k - rest.len();
        let wildcard = if is_wildcard_rule(r) { seq![r.email_registry_uid@] } else { Seq::<Seq<char>>::empty() };
        let tagged = tag_grants(split_trimmed(r.tags@, ','), purpose, r.email_registry_uid@);
        assert(g == wildcard + tagged);
        if m < wildcard.len() {
            assert(g[m] == r.email_registry_uid@);
        } else {
            assert(tagged[m - wildcard.len()] == uid);
            lemma_tag_grants_only_matching(split_trimmed(r.tags@, ','), purpose, r.email_registry_uid@, uid);
        }
    }
}

} // verus!
