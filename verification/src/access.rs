//! Access checks: client addresses against allow-lists, and the API-key
//! check of the authentication endpoint.

use vstd::prelude::*;
use vstd::string::*;
use crate::appdata::{AppdataStore, appdata_as, get_appdata};
use crate::text::{str_eq, str_starts_with, views, split_trimmed, split_trimmed_parts};

verus! {

/// `p` without its trailing '*' characters.
pub open spec fn strip_stars(p: Seq<char>) -> Seq<char>
    decreases p.len(),
{
    if p.len() > 0 && p.last() == '*' {
        strip_stars(p.drop_last())
    } else {
        p
    }
}

/// Whether the allow-list entry `p` admits the address `ip`: an entry that
/// ends in '*' admits every address that begins with the entry's text before
/// its trailing stars; any other entry admits exactly itself.
pub open spec fn pattern_admits(p: Seq<char>, ip: Seq<char>) -> bool {
    if p.len() > 0 && p.last() == '*' {
        strip_stars(p).is_prefix_of(ip)
    } else {
        p == ip
    }
}

/// Whether some entry of the allow-list admits `ip` (an empty list admits
/// nobody).
pub open spec fn permitted_by(ip: Seq<char>, ps: Seq<Seq<char>>) -> bool {
    exists|i: int| 0 <= i < ps.len() && pattern_admits(#[trigger] ps[i], ip)
}

proof fn lemma_strip_stars_prefix(s: Seq<char>, k: int)
    requires
        0 <= k <= s.len(),
        forall|j: int| k <= j < s.len() ==> #[trigger] s[j] == '*',
    ensures
        strip_stars(s) == strip_stars(s.subrange(0, k)),
    decreases s.len() - k,
{
    if k < s.len() {
        assert(s.drop_last().subrange(0, k) =~= s.subrange(0, k));
        lemma_strip_stars_prefix(s.drop_last(), k);
    } else {
        assert(s.subrange(0, k) =~= s);
    }
}

fn strip_trailing_stars(p: &str) -> (r: &str)
    ensures
        r@ == strip_stars(p@),
{
    let n = p.unicode_len();
    let mut k: usize = n;
    while k > 0 && p.get_char(k - 1) == '*'
        invariant
            n == p@.len(),
            k <= n,
            forall|j: int| k <= j < n ==> #[trigger] p@[j] == '*',
        decreases k,
    {
        k = k - 1;
    }
    proof {
        lemma_strip_stars_prefix(p@, k as int);
        let t = p@.subrange(0, k as int);
        if k > 0 {
            assert(t.last() == p@[k - 1]);
        }
    }
    p.substring_char(0, k)
}

/// Whether the address `client_ip` is admitted by one of the `allowed`
/// entries: "*" admits every address, "10.0.*" every address that begins
/// with "10.0.", any other entry only itself; an empty list admits none.
pub fn ip_permitted(client_ip: &str, allowed: &Vec<String>) -> (r: bool)
    ensures
        r == permitted_by(client_ip@, views(allowed@)),
{
    if allowed.len() == 0 {
        return false;
    }
    let mut i: usize = 0;
    while i < allowed.len()
        invariant
            i <= allowed@.len(),
        decreases allowed@.len() - i,
    {
        if str_eq(allowed[i].as_str(), "*") {
            proof {
                reveal_strlit("*");
                assert(allowed@[i as int]@ =~= seq!['*']);
                assert(strip_stars(seq!['*']) == strip_stars(seq!['*'].drop_last()));
                assert(seq!['*'].drop_last() =~= Seq::<char>::empty());
                assert(Seq::<char>::empty().is_prefix_of(client_ip@));
                assert(pattern_admits(views(allowed@)[i as int], client_ip@));
            }
            return true;
        }
        i = i + 1;
    }
    let mut k: usize = 0;
    while k < allowed.len()
        invariant
            k <= allowed@.len(),
            forall|j: int| 0 <= j < k ==> !pattern_admits(#[trigger] views(allowed@)[j], client_ip@),
        decreases allowed@.len() - k,
    {
        let p = allowed[k].as_str();
        let n = p.unicode_len();
        let admits = if n > 0 && p.get_char(n - 1) == '*' {
            let prefix = strip_trailing_stars(p);
            str_starts_with(client_ip, prefix)
        } else {
            str_eq(p, client_ip)
        };
        assert(views(allowed@)[k as int] == allowed@[k as int]@);
        if admits {
            assert(pattern_admits(views(allowed@)[k as int], client_ip@));
            return true;
        }
        k = k + 1;
    }
    false
}

/// The allow-list that the setting "allowed-ips" of `partner` holds
/// (empty when unset).
pub open spec fn partner_allow_list(store: crate::appdata::StoreModel, partner: Seq<char>) -> Seq<Seq<char>> {
    match appdata_as::<Vec<String>>(store, partner, "allowed-ips"@) {
        Some(v) => v,
        None => Seq::empty(),
    }
}

/// Whether `client_ip` is admitted by the list of addresses that the
/// setting "allowed-ips" of the pair `partner_uid` holds.
pub fn validate_ip(store: &AppdataStore, client_ip: &str, partner_uid: &str) -> (r: bool)
    ensures
        r == permitted_by(client_ip@, partner_allow_list(store@, partner_uid@)),
{
    let allowed: Vec<String> = match get_appdata::<Vec<String>>(store, partner_uid, "allowed-ips") {
        Some(v) => v,
        None => Vec::new(),
    };
    assert(views(allowed@) =~= allowed.deep_view());
    ip_permitted(client_ip, &allowed)
}

/// The list that a text setting holds when split at `sep`.
pub open spec fn appdata_list(store: crate::appdata::StoreModel, env_app: Seq<char>, key: Seq<char>, sep: char) -> Option<Seq<Seq<char>>> {
    match appdata_as::<String>(store, env_app, key) {
        Some(t) => Some(split_trimmed(t, sep)),
        None => None,
    }
}

/// Reads the text setting `key` of `env_app` as a list: split at `sep`,
/// each part trimmed, empty parts dropped.
pub fn get_vec_appdata(store: &AppdataStore, env_app: &str, key: &str, sep: char) -> (r: Option<Vec<String>>)
    ensures
        match r {
            Some(v) => appdata_list(store@, env_app@, key@, sep) == Some(views(v@)),
            None => appdata_list(store@, env_app@, key@, sep) is None,
        },
{
    match get_appdata::<String>(store, env_app, key) {
        Some(t) => Some(split_trimmed_parts(t.as_str(), sep)),
        None => None,
    }
}


proof fn lemma_strip_stars_is_prefix(p: Seq<char>)
    ensures
        strip_stars(p).is_prefix_of(p),
    decreases p.len(),
{
    if p.len() > 0 && p.last() == '*' {
        lemma_strip_stars_is_prefix(p.drop_last());
    }
}

/// An empty allow-list admits no address.
pub proof fn lemma_empty_list_admits_none(ip: Seq<char>)
    ensures
        !permitted_by(ip, Seq::empty()),
{
}

/// A list holding "*" admits every address.
pub proof fn lemma_star_admits_all(ps: Seq<Seq<char>>, ip: Seq<char>)
    requires
        ps.contains(seq!['*']),
    ensures
        permitted_by(ip, ps),
{
    let i = choose|i: int| 0 <= i < ps.len() && ps[i] == seq!['*'];
    assert(seq!['*'].drop_last() =~= Seq::<char>::empty());
    assert(strip_stars(seq!['*']) == strip_stars(seq!['*'].drop_last()));
    assert(pattern_admits(ps[i], ip));
}

/// An address listed as it is is admitted.
pub proof fn lemma_listed_address_admitted(ps: Seq<Seq<char>>, ip: Seq<char>)
    requires
        ps.contains(ip),
    ensures
        permitted_by(ip, ps),
{
    let i = choose|i: int| 0 <= i < ps.len() && ps[i] == ip;
    lemma_strip_stars_is_prefix(ip);
    assert(pattern_admits(ps[i], ip));
}

/// Adding entries to an allow-list, before or after, never revokes an
/// address it admitted.
pub proof fn lemma_more_entries_admit_more(ps: Seq<Seq<char>>, qs: Seq<Seq<char>>, ip: Seq<char>)
    requires
        permitted_by(ip, ps),
    ensures
        permitted_by(ip, ps + qs),
        permitted_by(ip, qs + ps),
{
    let i = choose|i: int| 0 <= i < ps.len() && pattern_admits(#[trigger] ps[i], ip);
    assert((ps + qs)[i] == ps[i]);
    assert((qs + ps)[qs.len() + i] == ps[i]);
}

} // verus!
