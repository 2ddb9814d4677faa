//! The decisions of an SSRF-hardened page fetch. Only `http` and `https` URLs
//! are fetched, and at every hop (the first URL and each redirect target) the
//! host is checked again: first the literal check, then every address it
//! resolves to. Redirects are followed by hand, at most [`MAX_REDIRECTS`] of
//! them. The caller resolves host names, sends the requests and reads the
//! body, reporting each outcome back.
use vstd::prelude::*;

use crate::chars::push_decimal;
use crate::chars::decimal;
use crate::ssrf::{is_private_ip, is_private_spec, reject_literal_host, reject_spec};

verus! {

/// Most redirects followed.
pub const MAX_REDIRECTS: usize = 5;

/// What `url`'s `Url::parse` makes of a text: the serialized URL, its scheme
/// and its host, or `None` when it is not an absolute URL.
pub uninterp spec fn url_components(raw: Seq<char>) -> Option<(Seq<char>, Seq<char>, Option<Seq<char>>)>;

/// What `url`'s `Url::join` makes of a redirect target against the URL it came
/// from (serialized), or `None` when it cannot be resolved.
pub uninterp spec fn joined_url(base: Seq<char>, location: Seq<char>) -> Option<Seq<char>>;

/// The view of parsed URL components.
pub open spec fn components_view(r: Option<(String, String, Option<String>)>) -> Option<(Seq<char>, Seq<char>, Option<Seq<char>>)> {
    match r {
        Some((href, scheme, host)) => Some((href@, scheme@, match host {
            Some(h) => Some(h@),
            None => None,
        })),
        None => None,
    }
}

/// Parse `raw` with `Url::parse` (as re-exported by `reqwest`) and hand back
/// the serialized URL, its scheme and its host (`host_str`); `None` when it is
/// not an absolute URL. The contract only names the result as a function of
/// the text.
#[verifier::external_body]
fn parse_url(raw: &str) -> (r: Option<(String, String, Option<String>)>)
    ensures
        components_view(r) == url_components(raw@),
{
    reqwest::Url::parse(raw).ok().map(|u| (u.as_str().to_string(), u.scheme().to_string(), u.host_str().map(|h| h.to_string())))
}

/// Resolve the redirect target `location` against `base` with `Url::join`
/// (`base` parsed with `Url::parse` first) and serialize it; `None` when
/// either step fails. The contract only names the result as a function of the
/// two texts.
#[verifier::external_body]
fn join_url(base: &str, location: &str) -> (r: Option<String>)
    ensures
        (match r {
            Some(u) => Some(u@),
            None => None::<Seq<char>>,
        }) == joined_url(base@, location@),
{
    reqwest::Url::parse(base).ok()?.join(location).ok().map(|u| u.to_string())
}

/// The message for a text that is not a usable URL.
pub open spec fn invalid_url_message() -> Seq<char> {
    "That is not a valid URL."@
}

/// The message for a refused address.
pub open spec fn not_allowed_message() -> Seq<char> {
    "That address is not allowed."@
}

/// Whether a fetch may go to `raw`: an absolute `http`/`https` URL whose host
/// passes the literal check gives its serialized form and host; anything else
/// gives the refusal.
pub open spec fn target_spec(raw: Seq<char>) -> Result<(Seq<char>, Seq<char>), Seq<char>> {
    match url_components(raw) {
        None => Err(invalid_url_message()),
        Some((href, scheme, host)) => if scheme != "http"@ && scheme != "https"@ {
            Err("Only http and https URLs can be fetched."@)
        } else {
            match host {
                None => Err(invalid_url_message()),
                Some(h) => if reject_spec(h) is Some {
                    Err(not_allowed_message())
                } else {
                    Ok((href, h))
                },
            }
        },
    }
}

/// Where a fetch stands.
#[derive(Debug, Clone, Copy, PartialEq, Eq, Structural)]
pub enum FetchPhase {
    /// Resolve `host`, then report the addresses with [`Fetch::on_resolved`].
    Resolve,
    /// Send a GET for `url` (redirects not followed), then report the outcome
    /// with [`Fetch::on_response`].
    Send,
    /// The last response succeeded: read its body.
    Read,
    /// The fetch is refused or failed with `message`.
    Failed,
}

/// A fetch in progress: the redirect count, the current URL and its host.
#[derive(Debug, Clone)]
pub struct Fetch {
    pub hop: usize,
    pub url: String,
    pub host: String,
    pub phase: FetchPhase,
    pub message: String,
}

/// The outcome of one request: its HTTP status and its `Location` header, if
/// it had one that is text.
#[derive(Debug, Clone)]
pub struct Reply {
    pub status: u16,
    pub location: Option<String>,
}

/// An HTTP status in the redirection class.
pub open spec fn is_redirection(status: u16) -> bool {
    300 <= status <= 399
}

/// An HTTP status in the success class.
pub open spec fn is_success(status: u16) -> bool {
    200 <= status <= 299
}

/// Some address of `addrs` is private.
pub open spec fn any_private(addrs: Seq<String>) -> bool {
    exists|i: int| 0 <= i < addrs.len() && is_private_spec(#[trigger] addrs[i]@)
}

/// Whether some address of `addrs` is private.
fn has_private(addrs: &Vec<String>) -> (r: bool)
    ensures
        r == any_private(addrs@),
{
    let mut i: usize = 0;
    while i < addrs.len()
        invariant
            i <= addrs@.len(),
            forall|k: int| 0 <= k < i ==> !is_private_spec(#[trigger] addrs@[k]@),
        decreases addrs@.len() - i,
    {
        if is_private_ip(addrs[i].as_str()) {
            return true;
        }
        i = i + 1;
    }
    false
}

impl Fetch {
    /// A fetch that is not failed is at a checked target: its URL and host are
    /// what [`target_spec`] accepted, within the redirect cap.
    pub open spec fn wf(self) -> bool {
        self.phase != FetchPhase::Failed ==> {
            &&& self.hop <= MAX_REDIRECTS
            &&& reject_spec(self.host@) is None
            &&& exists|raw: Seq<char>| target_spec(raw) == Ok::<(Seq<char>, Seq<char>), Seq<char>>((self.url@, self.host@))
        }
    }

    /// Set out for `url` at redirect `hop`: resolve its host when the target is
    /// acceptable, else fail with the refusal.
    fn aim(hop: usize, url: &str) -> (r: Fetch)
        requires
            hop <= MAX_REDIRECTS,
        ensures
            r.wf(),
            r.hop == hop,
            match target_spec(url@) {
                Ok((href, host)) => r.phase == FetchPhase::Resolve && r.url@ == href && r.host@ == host,
                Err(m) => r.phase == FetchPhase::Failed && r.message@ == m,
            },
    {
        match parse_url(url) {
            None => Fetch::fail(hop, "That is not a valid URL."),
            Some((href, scheme, host)) => {
                if !crate::chars::str_eq(scheme.as_str(), "http") && !crate::chars::str_eq(scheme.as_str(), "https") {
                    return Fetch::fail(hop, "Only http and https URLs can be fetched.");
                }
                match host {
                    None => Fetch::fail(hop, "That is not a valid URL."),
                    Some(h) => {
                        if reject_literal_host(h.as_str()).is_some() {
                            Fetch::fail(hop, "That address is not allowed.")
                        } else {
                            proof {
                                assert(target_spec(url@) == Ok::<(Seq<char>, Seq<char>), Seq<char>>((href@, h@)));
                            }
                            Fetch { hop, url: href, host: h, phase: FetchPhase::Resolve, message: String::new() }
                        }
                    },
                }
            },
        }
    }

    fn fail(hop: usize, message: &str) -> (r: Fetch)
        ensures
            r.phase == FetchPhase::Failed,
            r.message@ == message@,
            r.hop == hop,
            r.wf(),
    {
        Fetch { hop, url: String::new(), host: String::new(), phase: FetchPhase::Failed, message: String::from_str(message) }
    }

    /// Start fetching `raw` (trimmed): the first hop.
    pub fn start(raw: &str) -> (r: Fetch)
        ensures
            r.wf(),
            r.hop == 0,
            match target_spec(crate::chars::trim(raw@)) {
                Ok((href, host)) => r.phase == FetchPhase::Resolve && r.url@ == href && r.host@ == host,
                Err(m) => r.phase == FetchPhase::Failed && r.message@ == m,
            },
    {
        let t = crate::chars::trimmed(raw);
        Fetch::aim(0, t.as_str())
    }

    /// The host resolved to `addrs` (`None`: it could not be resolved). Any
    /// private address refuses the fetch; otherwise the request is sent.
    pub fn on_resolved(&mut self, addrs: Option<&Vec<String>>)
        requires
            old(self).wf(),
            old(self).phase == FetchPhase::Resolve,
        ensures
            final(self).wf(),
            final(self).hop == old(self).hop,
            final(self).url@ == old(self).url@,
            final(self).host@ == old(self).host@,
            match addrs {
                None => final(self).phase == FetchPhase::Failed && final(self).message@ == "Could not resolve that host."@,
                Some(a) => if any_private(a@) {
                    final(self).phase == FetchPhase::Failed && final(self).message@ == not_allowed_message()
                } else {
                    final(self).phase == FetchPhase::Send
                },
            },
    {
        match addrs {
            None => {
                self.phase = FetchPhase::Failed;
                self.message = String::from_str("Could not resolve that host.");
            },
            Some(a) => {
                if has_private(a) {
                    self.phase = FetchPhase::Failed;
                    self.message = String::from_str("That address is not allowed.");
                } else {
                    self.phase = FetchPhase::Send;
                }
            },
        }
    }

    /// The request was answered with `reply` (`None`: it failed). A redirect
    /// with a `Location` is followed, to a target checked afresh, unless the
    /// cap is reached; any other answer is read when it succeeded and refused
    /// with its status otherwise.
    pub fn on_response(&mut self, reply: Option<Reply>)
        requires
            old(self).wf(),
            old(self).phase == FetchPhase::Send,
        ensures
            final(self).wf(),
            final(self).phase != FetchPhase::Send,
            match reply {
                None => final(self).phase == FetchPhase::Failed && final(self).message@ == "The request failed."@,
                Some(rep) => if is_redirection(rep.status) && rep.location is Some {
                    if old(self).hop == MAX_REDIRECTS {
                        final(self).phase == FetchPhase::Failed && final(self).message@ == "Too many redirects."@
                    } else {
                        match joined_url(old(self).url@, rep.location->0@) {
                            None => final(self).phase == FetchPhase::Failed && final(self).message@
                                == invalid_url_message(),
                            Some(next) => final(self).hop == old(self).hop + 1 && match target_spec(next) {
                                Ok((href, host)) => final(self).phase == FetchPhase::Resolve && final(self).url@ == href
                                    && final(self).host@ == host,
                                Err(m) => final(self).phase == FetchPhase::Failed && final(self).message@ == m,
                            },
                        }
                    }
                } else if is_success(rep.status) {
                    final(self).phase == FetchPhase::Read && final(self).url@ == old(self).url@
                        && final(self).host@ == old(self).host@ && final(self).hop == old(self).hop
                } else {
                    final(self).phase == FetchPhase::Failed && final(self).message@ == "The server returned "@
                        + decimal(rep.status as nat) + "."@
                },
            },
    {
        match reply {
            None => {
                self.phase = FetchPhase::Failed;
                self.message = String::from_str("The request failed.");
            },
            Some(rep) => {
                let redirect = 300 <= rep.status && rep.status <= 399;
                match rep.location {
                    Some(loc) if redirect => {
                        if self.hop == MAX_REDIRECTS {
                            self.phase = FetchPhase::Failed;
                            self.message = String::from_str("Too many redirects.");
                            return;
                        }
                        match join_url(self.url.as_str(), loc.as_str()) {
                            None => {
                                self.phase = FetchPhase::Failed;
                                self.message = String::from_str("That is not a valid URL.");
                            },
                            Some(next) => {
                                *self = Fetch::aim(self.hop + 1, next.as_str());
                            },
                        }
                    },
                    _ => {
                        if 200 <= rep.status && rep.status <= 299 {
                            self.phase = FetchPhase::Read;
                        } else {
                            let mut m = String::from_str("The server returned ");
                            push_decimal(&mut m, rep.status as u64);
                            m.append(".");
                            self.phase = FetchPhase::Failed;
                            self.message = m;
                        }
                    },
                }
            },
        }
    }
}

} // verus!
