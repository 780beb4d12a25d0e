//! The lookup client's decisions and the batch plan.
//!
//! The network call itself lives in the binary: it performs one HTTP
//! GET per target and hands back what it observed — the status and the
//! decode attempt of the body. Everything decided about that answer is
//! here: the request URL, the tri-state outcome of one lookup, and the
//! text each outcome prints.

use vstd::prelude::*;
use vstd::string::*;

use crate::config::Config;
use crate::host::{rendered, ShodanHostData};
use crate::text::{trimmed, views_of};

verus! {

/// The terminal state of one lookup attempt: a decoded record, a
/// non-success status for the target, or a failure of the call or of
/// the decoding, with its cause. A `Failed` outcome is contained: it
/// never affects a sibling lookup and prints nothing.
pub enum Outcome {
    Found(ShodanHostData),
    NotFound(String),
    Failed(String, String),
}

/// The request URL of one lookup: the target, trimmed of surrounding
/// whitespace, in the path, and the credential as a query parameter.
pub open spec fn lookup_url_text(key: Seq<char>, target: Seq<char>) -> Seq<char> {
    "https://api.shodan.io/shodan/host/"@ + trimmed(target) + "?key="@ + key
}

/// Builds the outbound request URL for one target.
pub fn lookup_url(api_key: &str, target: &str) -> (r: String)
    ensures
        r@ == lookup_url_text(api_key@, target@),
{
    let mut r = "https://api.shodan.io/shodan/host/".to_owned();
    r.append(crate::text::trim_str(target).as_str());
    r.append("?key=");
    r.append(api_key);
    proof {
        assert(r@ =~= lookup_url_text(api_key@, target@));
    }
    r
}

/// The single-line notice printed for a target without entries.
pub open spec fn notice_text(target: Seq<char>) -> Seq<char> {
    "There are no entries for: "@ + target
}

/// Builds the no-entries notice for a target.
pub fn not_found_notice(target: &str) -> (r: String)
    ensures
        r@ == notice_text(target@),
{
    let mut r = "There are no entries for: ".to_owned();
    r.append(target);
    proof {
        assert(r@ =~= notice_text(target@));
    }
    r
}

/// Decides whether an HTTP status is the success status whose body
/// holds a record. Every other status, not only 404, means "no
/// entries" for the target.
pub fn is_success_status(status: u16) -> (r: bool)
    ensures
        r == (status == 200),
{
    status == 200
}

/// Decides one lookup's outcome from what the network call produced:
/// the HTTP status and, for a success status, the decode attempt of
/// the body (or the cause text when decoding failed). Any non-success
/// status is treated identically as "no entries"; the body is then not
/// consulted. A call that produced no status at all never reaches this
/// decision: it is a `Failed` outcome at the caller.
pub fn lookup_outcome(target: &str, status: u16, body: Result<ShodanHostData, String>) -> (r:
    Outcome)
    ensures
        status == 200 ==> (match body {
            Ok(h) => r == Outcome::Found(h),
            Err(cause) => (r matches Outcome::Failed(t, c) && t@ == target@ && c == cause),
        }),
        status != 200 ==> (r matches Outcome::NotFound(t) && t@ == target@),
{
    if status == 200 {
        match body {
            Ok(h) => Outcome::Found(h),
            Err(cause) => Outcome::Failed(target.to_owned(), cause),
        }
    } else {
        Outcome::NotFound(target.to_owned())
    }
}

/// The text one outcome prints: a found record's full report, the
/// no-entries notice for a miss, and nothing for a contained failure.
pub open spec fn report_text(o: Outcome) -> Option<Seq<char>> {
    match o {
        Outcome::Found(h) => Some(rendered(h)),
        Outcome::NotFound(t) => Some(notice_text(t@)),
        Outcome::Failed(t, c) => None,
    }
}

/// Formats the report or notice one outcome prints, if any.
pub fn report_for(o: &Outcome) -> (r: Option<String>)
    ensures
        match report_text(*o) {
            Some(s) => (r matches Some(t) && t@ == s),
            None => r is None,
        },
{
    match o {
        Outcome::Found(h) => Some(h.render()),
        Outcome::NotFound(t) => Some(not_found_notice(t.as_str())),
        Outcome::Failed(t, c) => None,
    }
}

/// The fan-out plan of a batch: one lookup URL per target, in the
/// batch's order — exactly one request is issued per target, all
/// sharing the one read-only credential.
pub fn lookup_urls(cfg: &Config) -> (r: Vec<String>)
    ensures
        r@.len() == cfg.targets@.len(),
        forall|k: int|
            0 <= k < r@.len() ==> r@[k]@ == lookup_url_text(cfg.api_key@, cfg.targets@[k]@),
{
    let mut r: Vec<String> = Vec::new();
    let mut i: usize = 0;
    while i < cfg.targets.len()
        invariant
            0 <= i <= cfg.targets@.len(),
            r@.len() == i,
            forall|k: int|
                0 <= k < i ==> r@[k]@ == lookup_url_text(cfg.api_key@, cfg.targets@[k]@),
        decreases cfg.targets@.len() - i,
    {
        r.push(lookup_url(cfg.api_key.as_str(), cfg.targets[i].as_str()));
        i = i + 1;
    }
    r
}

/// The texts a batch of outcomes prints, in the order given: one per
/// found or missed target, none for a contained failure.
pub open spec fn report_texts(os: Seq<Outcome>) -> Seq<Seq<char>>
    decreases os.len(),
{
    if os.len() == 0 {
        Seq::empty()
    } else {
        let rest = report_texts(os.drop_last());
        match report_text(os.last()) {
            Some(s) => rest.push(s),
            None => rest,
        }
    }
}

/// A batch of `n` outcomes prints at most `n` reports or notices.
pub proof fn lemma_report_texts_len(os: Seq<Outcome>)
    ensures
        report_texts(os).len() <= os.len(),
    decreases os.len(),
{
    if os.len() > 0 {
        lemma_report_texts_len(os.drop_last());
    }
}

/// Collects what a batch of outcomes prints: every outcome reaches
/// this fan-in, a failed one adds nothing, and at most one text per
/// outcome comes out.
pub fn reports_for(outcomes: &Vec<Outcome>) -> (r: Vec<String>)
    ensures
        views_of(r@) == report_texts(outcomes@),
        r@.len() <= outcomes@.len(),
{
    let mut r: Vec<String> = Vec::new();
    let mut i: usize = 0;
    while i < outcomes.len()
        invariant
            0 <= i <= outcomes@.len(),
            r@.len() <= i,
            views_of(r@) == report_texts(outcomes@.take(i as int)),
        decreases outcomes@.len() - i,
    {
        let ghost r0 = r@;
        match report_for(&outcomes[i]) {
            Some(text) => {
                r.push(text);
                proof {
                    assert(views_of(r@) =~~= views_of(r0).push(r@[r@.len() - 1]@));
                }
            },
            None => {},
        }
        proof {
            assert(outcomes@.take(i + 1).drop_last() =~= outcomes@.take(i as int));
            assert(views_of(r@) =~~= report_texts(outcomes@.take(i + 1)));
        }
        i = i + 1;
    }
    proof {
        assert(outcomes@.take(outcomes@.len() as int) =~= outcomes@);
    }
    r
}

} // verus!
