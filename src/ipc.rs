//! The query protocol of the local channel: requests, responses, and how each
//! request is answered from the stored labels.
use vstd::prelude::*;
use crate::config::{lemma_map_of_has, map_of, Config, DesktopLabel, LabelMap};
use crate::desktop_key::{desktop_key, extract_guid_from_key, guid_of, key_of, lemma_guid_of_key};

verus! {

/// A query sent by a client.
#[derive(Clone, Copy, Debug, PartialEq, Eq)]
pub enum Request {
    /// All labels, keyed by bare GUID.
    List,
    /// The desktop that holds a window, and its label.
    ResolveWindow { hwnd: u64 },
}

/// The single answer to a request.
#[derive(Clone, Debug)]
pub struct Response {
    pub ok: bool,
    pub error: Option<String>,
    pub labels: Option<LabelMap>,
    pub desktop_id: Option<String>,
    pub label: Option<DesktopLabel>,
}

impl Response {
    /// Success carries either the labels or a desktop id with its label; failure
    /// carries an error message and nothing else.
    pub open spec fn wf(&self) -> bool {
        if self.ok {
            &&& self.error is None
            &&& self.desktop_id is Some <==> self.label is Some
            &&& self.labels is Some <==> self.desktop_id is None
        } else {
            &&& self.error is Some
            &&& self.labels is None
            &&& self.desktop_id is None
            &&& self.label is None
        }
    }

    /// A failure whose message is `what`, a colon and a space, then `detail`.
    pub open spec fn is_failure(&self, what: Seq<char>, detail: Seq<char>) -> bool {
        &&& self.wf()
        &&& !self.ok
        &&& self.error->0@ == what + seq![':', ' '] + detail
    }
}

/// Builds the failure response `what: detail`.
fn failure(what: &str, detail: &str) -> (r: Response)
    ensures
        r.is_failure(what@, detail@),
{
    let mut msg = what.to_owned();
    msg.append(": ");
    msg.append(detail);
    proof {
        reveal_strlit(": ");
        assert(msg@ =~= what@ + seq![':', ' '] + detail@);
    }
    Response { ok: false, error: Some(msg), labels: None, desktop_id: None, label: None }
}

/// The message prefix of a request that could not be read or parsed.
pub open spec fn bad_request_text() -> Seq<char> {
    seq!['b', 'a', 'd', ' ', 'r', 'e', 'q', 'u', 'e', 's', 't']
}

/// The message prefix of a failed `List`.
pub open spec fn list_failed_text() -> Seq<char> {
    seq!['l', 'i', 's', 't', ' ', 'f', 'a', 'i', 'l', 'e', 'd']
}

/// The message prefix of a failed `ResolveWindow`.
pub open spec fn resolve_failed_text() -> Seq<char> {
    seq!['r', 'e', 's', 'o', 'l', 'v', 'e', '_', 'w', 'i', 'n', 'd', 'o', 'w', ' ', 'f', 'a', 'i', 'l', 'e', 'd']
}

/// The message prefix of a response that could not be serialized.
pub open spec fn serialize_failed_text() -> Seq<char> {
    seq!['s', 'e', 'r', 'i', 'a', 'l', 'i', 'z', 'e', ' ', 'f', 'a', 'i', 'l', 'e', 'd']
}

/// The answer to a request that could not be read or parsed.
pub fn bad_request(detail: &str) -> (r: Response)
    ensures
        r.is_failure(bad_request_text(), detail@),
{
    proof {
        reveal_strlit("bad request");
    }
    let r = failure("bad request", detail);
    assert("bad request"@ =~= bad_request_text());
    r
}

/// The fallback answer when a response could not be serialized.
pub fn serialize_failed(detail: &str) -> (r: Response)
    ensures
        r.is_failure(serialize_failed_text(), detail@),
{
    proof {
        reveal_strlit("serialize failed");
    }
    let r = failure("serialize failed", detail);
    assert("serialize failed"@ =~= serialize_failed_text());
    r
}

/// The (GUID, label) pairs of the entries whose key holds a GUID, in entry order.
pub open spec fn labels_of(s: Seq<(Seq<char>, (Seq<char>, Seq<char>))>) -> Seq<
    (Seq<char>, (Seq<char>, Seq<char>)),
>
    decreases s.len(),
{
    if s.len() == 0 {
        Seq::empty()
    } else {
        let rest = labels_of(s.drop_last());
        match guid_of(s.last().0) {
            Some(g) => rest.push((g, s.last().1)),
            None => rest,
        }
    }
}

/// The listing of a set of entries: each GUID maps to the label of the last entry
/// whose key holds it.
pub open spec fn guid_labels(s: Seq<(Seq<char>, (Seq<char>, Seq<char>))>) -> Map<
    Seq<char>,
    (Seq<char>, Seq<char>),
> {
    map_of(labels_of(s))
}

/// Every entry's key holds a GUID.
pub open spec fn all_keys_have_guid(s: Seq<(Seq<char>, (Seq<char>, Seq<char>))>) -> bool {
    forall|i: int| 0 <= i < s.len() ==> (#[trigger] guid_of(s[i].0)) is Some
}

/// `i` is the first entry whose key holds no GUID.
pub open spec fn first_without_guid(s: Seq<(Seq<char>, (Seq<char>, Seq<char>))>, i: int) -> bool {
    &&& 0 <= i < s.len()
    &&& guid_of(s[i].0) is None
    &&& forall|j: int| 0 <= j < i ==> (#[trigger] guid_of(s[j].0)) is Some
}

/// The labels of all desktops keyed by the GUID of their key; fails with the
/// first key that holds no GUID.
pub fn list_labels(desktops: &LabelMap) -> (r: Result<LabelMap, String>)
    ensures
        r is Ok <==> all_keys_have_guid(desktops.entries()),
        r matches Ok(m) ==> m.wf() && m@ == guid_labels(desktops.entries()),
        r matches Err(k) ==> exists|i: int|
            first_without_guid(desktops.entries(), i) && k@ == #[trigger] desktops.entries()[i].0,
{
    let ghost s = desktops.entries();
    let mut out = LabelMap::new();
    let mut i: usize = 0;
    let n = desktops.len();
    while i < n
        invariant
            n == s.len(),
            s == desktops.entries(),
            i <= n,
            out.wf(),
            out@ == map_of(labels_of(s.subrange(0, i as int))),
            forall|j: int| 0 <= j < i ==> (#[trigger] guid_of(s[j].0)) is Some,
        decreases n - i,
    {
        let key = desktops.key_at(i);
        let ghost prev = labels_of(s.subrange(0, i as int));
        assert(s.subrange(0, i + 1).drop_last() =~= s.subrange(0, i as int));
        match extract_guid_from_key(key.as_str()) {
            Some(g) => {
                let label = desktops.label_at(i).duplicate();
                let ghost p = (g@, s[i as int].1);
                assert(labels_of(s.subrange(0, i + 1)) == prev.push(p));
                assert(prev.push(p).drop_last() =~= prev);
                out.insert(g.to_owned(), label);
            },
            None => {
                assert(first_without_guid(s, i as int));
                return Err(key.clone());
            },
        }
        i = i + 1;
    }
    assert(s.subrange(0, n as int) =~= s);
    Ok(out)
}

/// A label stored under the key formatted from a desktop id shows in the listing
/// under that id, provided the id holds no closing parenthesis.
pub proof fn lemma_listed_under_id(
    s: Seq<(Seq<char>, (Seq<char>, Seq<char>))>,
    i: int,
    id: Seq<char>,
)
    requires
        0 <= i < s.len(),
        s[i].0 == key_of(id),
        !id.contains(')'),
    ensures
        guid_labels(s).contains_key(id),
{
    lemma_in_labels(s, i, id);
    let l = labels_of(s);
    let k = choose|k: int| 0 <= k < l.len() && l[k].0 == id;
    lemma_map_of_has(l, k);
}

proof fn lemma_in_labels(s: Seq<(Seq<char>, (Seq<char>, Seq<char>))>, i: int, id: Seq<char>)
    requires
        0 <= i < s.len(),
        s[i].0 == key_of(id),
        !id.contains(')'),
    ensures
        exists|k: int| 0 <= k < labels_of(s).len() && labels_of(s)[k].0 == id,
    decreases s.len(),
{
    lemma_guid_of_key(id);
    let rest = labels_of(s.drop_last());
    if i == s.len() - 1 {
        assert(labels_of(s)[rest.len() as int].0 == id);
    } else {
        lemma_in_labels(s.drop_last(), i, id);
        let k = choose|k: int| 0 <= k < rest.len() && rest[k].0 == id;
        assert(labels_of(s)[k].0 == id);
    }
}

/// The message detail for a desktop key that holds no GUID.
pub open spec fn no_guid_text() -> Seq<char> {
    seq!['n', 'o', ' ', 'G', 'U', 'I', 'D', ' ', 'i', 'n', ' ', 'k', 'e', 'y', ' ']
}

/// `r` answers `List` given what loading the configuration gave: the listing of
/// its desktops when every key holds a GUID, else a `list failed` error naming
/// the load error or the first key without a GUID.
pub open spec fn answers_list(r: Response, loaded: Result<Config, String>) -> bool {
    &&& r.wf()
    &&& match loaded {
        Err(e) => r.is_failure(list_failed_text(), e@),
        Ok(c) => if all_keys_have_guid(c.desktops.entries()) {
            &&& r.ok
            &&& r.labels is Some
            &&& r.labels->0.wf()
            &&& r.labels->0@ == guid_labels(c.desktops.entries())
        } else {
            exists|i: int|
                first_without_guid(c.desktops.entries(), i) && r.is_failure(
                    list_failed_text(),
                    no_guid_text() + #[trigger] c.desktops.entries()[i].0,
                )
        },
    }
}

/// The answer to `List` once the configuration was loaded, or failed to load.
pub fn list_response(loaded: Result<Config, String>) -> (r: Response)
    ensures
        answers_list(r, loaded),
{
    proof {
        reveal_strlit("list failed");
        reveal_strlit("no GUID in key ");
    }
    assert("list failed"@ =~= list_failed_text());
    match loaded {
        Ok(c) => match list_labels(&c.desktops) {
            Ok(labels) => Response {
                ok: true,
                error: None,
                labels: Some(labels),
                desktop_id: None,
                label: None,
            },
            Err(k) => {
                let mut detail = "no GUID in key ".to_owned();
                detail.append(k.as_str());
                assert(detail@ =~= no_guid_text() + k@);
                failure("list failed", detail.as_str())
            },
        },
        Err(e) => failure("list failed", e.as_str()),
    }
}

/// The label stored for a desktop id: the one under its key, else an empty label.
pub open spec fn label_for(d: Map<Seq<char>, (Seq<char>, Seq<char>)>, id: Seq<char>) -> (
    Seq<char>,
    Seq<char>,
) {
    if d.contains_key(key_of(id)) {
        d[key_of(id)]
    } else {
        (Seq::empty(), Seq::empty())
    }
}

/// The label of the desktop with identifier `desktop_id`, empty when none is stored.
pub fn resolve_label(cfg: &Config, desktop_id: &str) -> (r: DesktopLabel)
    ensures
        r@ == label_for(cfg.desktops@, desktop_id@),
{
    let key = desktop_key(desktop_id);
    match cfg.desktops.get(key.as_str()) {
        Some(l) => l.duplicate(),
        None => DesktopLabel::empty(),
    }
}

/// `r` answers `ResolveWindow` given what the resolver gave and what loading
/// the configuration gave: a resolver error first, then a load error, each as
/// `resolve_window failed`; else the desktop id with its stored label.
pub open spec fn answers_resolve(
    r: Response,
    resolved: Result<String, String>,
    loaded: Result<Config, String>,
) -> bool {
    &&& r.wf()
    &&& match resolved {
        Err(e) => r.is_failure(resolve_failed_text(), e@),
        Ok(id) => match loaded {
            Err(e) => r.is_failure(resolve_failed_text(), e@),
            Ok(c) => {
                &&& r.ok
                &&& r.desktop_id is Some
                &&& r.desktop_id->0@ == id@
                &&& r.label is Some
                &&& r.label->0@ == label_for(c.desktops@, id@)
            },
        },
    }
}

/// The answer to `ResolveWindow` once the resolver gave a desktop id (or failed
/// with a message) and the configuration was loaded (or failed to load).
pub fn resolve_response(resolved: Result<String, String>, loaded: Result<Config, String>) -> (r:
    Response)
    ensures
        answers_resolve(r, resolved, loaded),
{
    proof {
        reveal_strlit("resolve_window failed");
    }
    assert("resolve_window failed"@ =~= resolve_failed_text());
    match resolved {
        Err(e) => failure("resolve_window failed", e.as_str()),
        Ok(id) => match loaded {
            Err(e) => failure("resolve_window failed", e.as_str()),
            Ok(c) => {
                let label = resolve_label(&c, id.as_str());
                Response {
                    ok: true,
                    error: None,
                    labels: None,
                    desktop_id: Some(id),
                    label: Some(label),
                }
            },
        },
    }
}

/// The desktop handle whose owner must be resolved to answer a parsed request.
pub fn window_to_resolve(parsed: &Result<Request, String>) -> (r: Option<u64>)
    ensures
        r == (match parsed {
            Ok(Request::ResolveWindow { hwnd }) => Some(*hwnd),
            _ => None,
        }),
{
    match parsed {
        Ok(Request::ResolveWindow { hwnd }) => Some(*hwnd),
        _ => None,
    }
}

/// Answers a request given what reading and parsing it gave, what loading the
/// configuration gave, and what the resolver gave for the window to resolve
/// (looked at for `ResolveWindow` only).
pub fn respond(
    parsed: Result<Request, String>,
    loaded: Result<Config, String>,
    resolved: Result<String, String>,
) -> (r: Response)
    ensures
        parsed matches Err(e) ==> r.is_failure(bad_request_text(), e@),
        parsed == Ok::<Request, String>(Request::List) ==> answers_list(r, loaded),
        parsed matches Ok(Request::ResolveWindow { hwnd }) ==> answers_resolve(r, resolved, loaded),
{
    match parsed {
        Err(e) => bad_request(e.as_str()),
        Ok(Request::List) => list_response(loaded),
        Ok(Request::ResolveWindow { hwnd: _ }) => resolve_response(resolved, loaded),
    }
}

} // verus!
