//! Resolution: which processor applies to a path, a byte stream or a
//! URL, with the cascading fallbacks between modes, between candidate
//! extensions and between sub-MIME candidates.
//!
//! The functions here only decide; the caller reads streams, probes MIME
//! types and spawns commands, handing results back in as plain values.

use vstd::prelude::*;
use crate::config::FileHandler;
use crate::config::SchemeHandler;
use crate::error::HandlerError;
use crate::mapping::assoc_find;
use crate::mapping::idx_entries;
use crate::mapping::FileHandlers;
use crate::mapping::HandlerMapping;
use crate::mode::RsopMode;
use crate::paths::path_extensions_spec;
use crate::paths::split_mime_spec;
use crate::template::count_pattern_spec;
use crate::text::copy_str;
use crate::text::str_eq;

verus! {

/// A found index lies in the range the table's well-formedness gives.
proof fn lemma_assoc_find_range(entries: Seq<(Seq<char>, int)>, key: Seq<char>, hi: int)
    requires
        forall|k: int| 0 <= k < entries.len() ==> 0 <= (#[trigger] entries[k]).1 < hi,
        assoc_find(entries, key) is Some,
    ensures
        0 <= assoc_find(entries, key)->0 < hi,
    decreases entries.len(),
{
    if entries.len() > 0 && entries.last().0 != key {
        assert(forall|k: int|
            0 <= k < entries.drop_last().len() ==> #[trigger] entries.drop_last()[k]
                == entries[k]);
        lemma_assoc_find_range(entries.drop_last(), key, hi);
    }
}

/// A resolved index lies in the range the table's well-formedness gives.
proof fn lemma_resolve_in_range(entries: Seq<(Seq<char>, int)>, keys: Seq<Seq<char>>, hi: int)
    requires
        forall|k: int| 0 <= k < entries.len() ==> 0 <= (#[trigger] entries[k]).1 < hi,
        resolve_in(entries, keys) is Some,
    ensures
        0 <= (resolve_in(entries, keys)->0).0 < hi,
    decreases keys.len(),
{
    if keys.len() > 0 {
        if assoc_find(entries, keys[0]) is Some {
            lemma_assoc_find_range(entries, keys[0], hi);
        } else {
            lemma_resolve_in_range(entries, keys.drop_first(), hi);
        }
    }
}

/// The first candidate key that the entries bind, and its index.
pub open spec fn resolve_in(entries: Seq<(Seq<char>, int)>, keys: Seq<Seq<char>>) -> Option<
    (int, Seq<char>),
>
    decreases keys.len(),
{
    if keys.len() == 0 {
        None
    } else {
        match assoc_find(entries, keys[0]) {
            Some(i) => Some((i, keys[0])),
            None => resolve_in(entries, keys.drop_first()),
        }
    }
}

/// The index the table pair binds for the first bound candidate key:
/// candidates in order, and for each candidate the primary entries
/// first, then the fallback entries.
pub open spec fn resolve_ext_in(
    primary: Seq<(Seq<char>, int)>,
    secondary: Option<Seq<(Seq<char>, int)>>,
    keys: Seq<Seq<char>>,
) -> Option<int>
    decreases keys.len(),
{
    if keys.len() == 0 {
        None
    } else {
        match assoc_find(primary, keys[0]) {
            Some(i) => Some(i),
            None => {
                let in_secondary = match secondary {
                    Some(sec) => assoc_find(sec, keys[0]),
                    None => None,
                };
                match in_secondary {
                    Some(i) => Some(i),
                    None => resolve_ext_in(primary, secondary, keys.drop_first()),
                }
            },
        }
    }
}

/// Search one table column for the first bound candidate key.
fn resolve_in_exec(entries: &Vec<(String, usize)>, keys: &Vec<String>) -> (r: Option<(
    usize,
    usize,
)>)
    ensures
        match r {
            Some((i, k)) => {
                &&& k < keys@.len()
                &&& resolve_in(idx_entries(entries@), keys.deep_view()) == Some(
                    (i as int, keys.deep_view()[k as int]),
                )
            },
            None => resolve_in(idx_entries(entries@), keys.deep_view()) is None,
        },
{
    let n = keys.len();
    let mut k: usize = 0;
    proof {
        assert(keys.deep_view().skip(0) =~= keys.deep_view());
    }
    while k < n
        invariant
            k <= n,
            n == keys@.len(),
            keys.deep_view().len() == n,
            resolve_in(idx_entries(entries@), keys.deep_view()) == resolve_in(
                idx_entries(entries@),
                keys.deep_view().skip(k as int),
            ),
        decreases n - k,
    {
        let ghost suf = keys.deep_view().skip(k as int);
        proof {
            assert(suf[0] == keys.deep_view()[k as int]);
            assert(suf.drop_first() =~= keys.deep_view().skip(k + 1 as int));
        }
        if let Some(i) = find_index(entries, keys[k].as_str()) {
            proof {
                assert(keys[k as int]@ == keys.deep_view()[k as int]);
            }
            return Some((i, k));
        }
        proof {
            assert(keys[k as int]@ == keys.deep_view()[k as int]);
        }
        k = k + 1;
    }
    None
}

/// Look a key up in one table column, a later entry winning.
fn find_index(entries: &Vec<(String, usize)>, key: &str) -> (r: Option<usize>)
    ensures
        match r {
            Some(i) => assoc_find(idx_entries(entries@), key@) == Some(i as int),
            None => assoc_find(idx_entries(entries@), key@) is None,
        },
{
    let ghost ev = idx_entries(entries@);
    let n = entries.len();
    let mut j = n;
    proof {
        assert(ev.take(n as int) =~= ev);
    }
    while j > 0
        invariant
            j <= n,
            n == entries@.len(),
            ev == idx_entries(entries@),
            ev.len() == n,
            assoc_find(ev, key@) == assoc_find(ev.take(j as int), key@),
        decreases j,
    {
        j = j - 1;
        proof {
            assert(ev.take(j + 1 as int).last() == ev[j as int]);
            assert(ev.take(j + 1 as int).drop_last() =~= ev.take(j as int));
            assert(ev[j as int] == (entries@[j as int].0@, entries@[j as int].1 as int));
        }
        if str_eq(entries[j].0.as_str(), key) {
            return Some(entries[j].1);
        }
    }
    proof {
        assert(ev.take(0).len() == 0);
    }
    None
}

/// The decision of the extension phase of path dispatch.
pub enum PathPrePlan {
    /// An extension matched: run this processor; probe the MIME type
    /// first only when the command wants `%m`.
    RunExtension { processor: usize, wants_mime: bool },
    /// No extension matched (or the mode never matches by extension):
    /// the caller must determine the MIME type and dispatch by it.
    NeedMime,
}

/// The decision of the MIME phase of path dispatch.
pub enum PathPostPlan {
    /// Identify mode: print this MIME type, run nothing.
    PrintMime(String),
    /// A sub-MIME candidate matched: run this processor with the matched
    /// candidate as the MIME value.
    RunMime { processor: usize, sub_mime: String },
    /// Nothing matched: run the mode's default handler with the probed
    /// MIME value.
    RunDefault { handler: FileHandler },
}

/// The decision for piped input.
pub enum PipePlan {
    /// Identify mode: print this MIME type, run nothing.
    PrintMime(String),
    /// A sub-MIME candidate matched: run this processor with the matched
    /// candidate as the MIME value.
    Run { processor: usize, sub_mime: String },
    /// Nothing matched: run the mode's default handler with the sniffed
    /// MIME type.
    RunDefault { handler: FileHandler, mime: String },
}

impl HandlerMapping {
    /// The table searched first for a mode.
    pub open spec fn primary(&self, mode: RsopMode) -> FileHandlers {
        match mode {
            RsopMode::Preview => self.preview_tbl,
            RsopMode::Edit => self.edit_tbl,
            _ => self.open_tbl,
        }
    }

    /// The fallback table for a mode: edit falls back to open's table
    /// and open to edit's; preview has none.
    pub open spec fn secondary(&self, mode: RsopMode) -> Option<FileHandlers> {
        match mode {
            RsopMode::Preview => None,
            RsopMode::Edit => Some(self.open_tbl),
            _ => Some(self.edit_tbl),
        }
    }

    /// The fallback table's extension entries, where the mode has one.
    pub open spec fn secondary_ext_entries(&self, mode: RsopMode) -> Option<
        Seq<(Seq<char>, int)>,
    > {
        match self.secondary(mode) {
            Some(t) => Some(t.ext_entries()),
            None => None,
        }
    }

    /// The processor for the first bound candidate extension: candidates
    /// in their given order, and for each candidate the mode's table
    /// first, then its fallback table.
    pub open spec fn resolve_extension_spec(&self, mode: RsopMode, exts: Seq<Seq<char>>) -> Option<
        int,
    > {
        resolve_ext_in(self.primary(mode).ext_entries(), self.secondary_ext_entries(mode), exts)
    }

    /// The processor and matched candidate for the first sub-MIME
    /// candidate bound in the mode's table or its fallback table.
    pub open spec fn resolve_mime_spec(&self, mode: RsopMode, mime: Seq<char>) -> Option<(
        int,
        Seq<char>,
    )> {
        let subs = split_mime_spec(mime);
        match resolve_in(self.primary(mode).mime_entries(), subs) {
            Some(r) => Some(r),
            None => match self.secondary(mode) {
                Some(t) => resolve_in(t.mime_entries(), subs),
                None => None,
            },
        }
    }

    fn primary_ref(&self, mode: &RsopMode) -> (r: &FileHandlers)
        ensures
            *r == self.primary(*mode),
    {
        match mode {
            RsopMode::Preview => &self.preview_tbl,
            RsopMode::Edit => &self.edit_tbl,
            _ => &self.open_tbl,
        }
    }

    fn secondary_ref(&self, mode: &RsopMode) -> (r: Option<&FileHandlers>)
        ensures
            match r {
                Some(t) => self.secondary(*mode) == Some(*t),
                None => self.secondary(*mode) is None,
            },
    {
        match mode {
            RsopMode::Preview => None,
            RsopMode::Edit => Some(&self.open_tbl),
            _ => Some(&self.edit_tbl),
        }
    }

    /// Resolve candidate extensions against the mode's table pair:
    /// candidates in their given order, and for each candidate the
    /// mode's table first, then its fallback table; the first binding
    /// wins.
    pub fn resolve_extension(&self, mode: &RsopMode, extensions: &Vec<String>) -> (r: Option<
        usize,
    >)
        requires
            self.wf(),
        ensures
            match r {
                Some(i) => self.resolve_extension_spec(*mode, extensions.deep_view()) == Some(
                    i as int,
                ) && i < self.processors@.len(),
                None => self.resolve_extension_spec(*mode, extensions.deep_view()) is None,
            },
    {
        let primary = self.primary_ref(mode);
        let secondary = self.secondary_ref(mode);
        let ghost p_entries = self.primary(*mode).ext_entries();
        let ghost s_entries = self.secondary_ext_entries(*mode);
        let ghost dv = extensions.deep_view();
        let n = extensions.len();
        let mut k: usize = 0;
        proof {
            assert(dv.skip(0) =~= dv);
        }
        while k < n
            invariant
                k <= n,
                n == extensions@.len(),
                dv == extensions.deep_view(),
                dv.len() == n,
                self.wf(),
                *primary == self.primary(*mode),
                match secondary {
                    Some(t) => self.secondary(*mode) == Some(*t),
                    None => self.secondary(*mode) is None,
                },
                p_entries == self.primary(*mode).ext_entries(),
                s_entries == self.secondary_ext_entries(*mode),
                resolve_ext_in(p_entries, s_entries, dv) == resolve_ext_in(
                    p_entries,
                    s_entries,
                    dv.skip(k as int),
                ),
            decreases n - k,
        {
            let ghost suf = dv.skip(k as int);
            proof {
                assert(suf[0] == dv[k as int]);
                assert(suf.drop_first() =~= dv.skip(k + 1 as int));
                assert(extensions[k as int]@ == dv[k as int]);
            }
            if let Some(i) = find_index(&primary.extensions, extensions[k].as_str()) {
                proof {
                    lemma_assoc_find_range(p_entries, dv[k as int], self.processors@.len() as int);
                }
                return Some(i);
            }
            if let Some(t) = secondary {
                if let Some(i) = find_index(&t.extensions, extensions[k].as_str()) {
                    proof {
                        lemma_assoc_find_range(
                            t.ext_entries(),
                            dv[k as int],
                            self.processors@.len() as int,
                        );
                    }
                    return Some(i);
                }
            }
            k = k + 1;
        }
        None
    }

    /// Resolve a MIME type against the mode's table pair, expanding it
    /// into sub-MIME candidates, most specific first; returns the
    /// processor and the candidate that matched.
    pub fn resolve_mime(&self, mode: &RsopMode, mime: &str) -> (r: Option<(usize, String)>)
        requires
            self.wf(),
        ensures
            match r {
                Some((i, sub)) => self.resolve_mime_spec(*mode, mime@) == Some((i as int, sub@))
                    && i < self.processors@.len(),
                None => self.resolve_mime_spec(*mode, mime@) is None,
            },
    {
        let subs = Self::split_mime(mime);
        let primary = self.primary_ref(mode);
        if let Some((i, k)) = resolve_in_exec(&primary.mimes, &subs) {
            proof {
                lemma_resolve_in_range(
                    primary.mime_entries(),
                    subs.deep_view(),
                    self.processors@.len() as int,
                );
            }
            let sub = subs[k].clone();
            return Some((i, sub));
        }
        if let Some(t) = self.secondary_ref(mode) {
            if let Some((i, k)) = resolve_in_exec(&t.mimes, &subs) {
                proof {
                    lemma_resolve_in_range(
                        t.mime_entries(),
                        subs.deep_view(),
                        self.processors@.len() as int,
                    );
                }
                let sub = subs[k].clone();
                return Some((i, sub));
            }
        }
        None
    }

    /// The extension phase of path dispatch: in any mode but Identify,
    /// resolve the path's candidate extensions; on a match, report
    /// whether the command wants a MIME value (`%m`), so the caller
    /// probes one only then.
    pub fn dispatch_path_by_extension(&self, mode: &RsopMode, path: &str) -> (r: PathPrePlan)
        requires
            self.wf(),
        ensures
            *mode == RsopMode::Identify ==> r is NeedMime,
            *mode != RsopMode::Identify ==> match self.resolve_extension_spec(
                *mode,
                path_extensions_spec(path@),
            ) {
                Some(i) => r matches PathPrePlan::RunExtension { processor, wants_mime }
                    && processor == i && processor < self.processors@.len() && wants_mime == (
                count_pattern_spec(self.procs_view()[i].command(), 'm') > 0),
                None => r is NeedMime,
            },
    {
        if *mode == RsopMode::Identify {
            return PathPrePlan::NeedMime;
        }
        let exts = Self::path_extensions(path);
        match self.resolve_extension(mode, &exts) {
            Some(i) => {
                let wants_mime = self.processors[i].has_pattern('m');
                proof {
                    assert(self.procs_view()[i as int] == self.processors@[i as int]@);
                }
                PathPrePlan::RunExtension { processor: i, wants_mime }
            },
            None => PathPrePlan::NeedMime,
        }
    }

    /// The MIME phase of path dispatch: in Identify mode the resolved
    /// MIME type is printed (an absent one is an error); otherwise the
    /// first bound sub-MIME candidate wins, and failing that the mode's
    /// default handler runs.
    pub fn dispatch_path_by_mime(&self, mode: &RsopMode, mime: Option<&str>) -> (r: Result<
        PathPostPlan,
        HandlerError,
    >)
        requires
            self.wf(),
        ensures
            *mode == RsopMode::Identify ==> match mime {
                Some(m) => r is Ok && (r->Ok_0 matches PathPostPlan::PrintMime(p) && p@ == m@),
                None => r is Err && r->Err_0 is Other,
            },
            *mode != RsopMode::Identify ==> {
                &&& r is Ok
                &&& match mime {
                    Some(m) => match self.resolve_mime_spec(*mode, m@) {
                        Some((i, sub)) => r->Ok_0 matches PathPostPlan::RunMime {
                            processor,
                            sub_mime,
                        } && processor == i && processor < self.processors@.len() && sub_mime@
                            == sub,
                        None => r->Ok_0 matches PathPostPlan::RunDefault { handler } && handler@
                            == self.primary(*mode).default@,
                    },
                    None => r->Ok_0 matches PathPostPlan::RunDefault { handler } && handler@
                        == self.primary(*mode).default@,
                }
            },
    {
        if *mode == RsopMode::Identify {
            return match mime {
                Some(m) => Ok(PathPostPlan::PrintMime(copy_str(m))),
                None => Err(HandlerError::other("unable to get MIME type")),
            };
        }
        if let Some(m) = mime {
            if let Some((i, sub)) = self.resolve_mime(mode, m) {
                return Ok(PathPostPlan::RunMime { processor: i, sub_mime: sub });
            }
        }
        let handler = self.primary_ref(mode).default.clone();
        Ok(PathPostPlan::RunDefault { handler })
    }

    /// What `dispatch_pipe_with_mime` must decide for a given sniffed
    /// MIME type.
    pub open spec fn pipe_plan_spec(&self, mode: RsopMode, mime: Seq<char>, r: PipePlan) -> bool {
        if mode == RsopMode::Identify {
            r matches PipePlan::PrintMime(p) && p@ == mime
        } else {
            match self.resolve_mime_spec(mode, mime) {
                Some((i, sub)) => r matches PipePlan::Run { processor, sub_mime } && processor == i
                    && processor < self.processors@.len() && sub_mime@ == sub,
                None => r matches PipePlan::RunDefault { handler, mime: m } && handler@
                    == self.primary(mode).default@ && m@ == mime,
            }
        }
    }

    /// Dispatch piped input whose MIME type is already known: Identify
    /// prints it; otherwise the first bound sub-MIME candidate wins, and
    /// failing that the mode's default handler runs with the full MIME
    /// type.
    pub fn dispatch_pipe_with_mime(&self, mode: &RsopMode, mime: &str) -> (r: PipePlan)
        requires
            self.wf(),
        ensures
            self.pipe_plan_spec(*mode, mime@, r),
    {
        if *mode == RsopMode::Identify {
            return PipePlan::PrintMime(copy_str(mime));
        }
        if let Some((i, sub)) = self.resolve_mime(mode, mime) {
            return PipePlan::Run { processor: i, sub_mime: sub };
        }
        let handler = self.primary_ref(mode).default.clone();
        PipePlan::RunDefault { handler, mime: copy_str(mime) }
    }

    /// Dispatch piped input from its header bytes: the MIME type is
    /// sniffed from the header by the MIME database, and the decision is
    /// that of `dispatch_pipe_with_mime` for whatever the sniff
    /// returned.
    pub fn dispatch_pipe_plan(&self, mode: &RsopMode, header: &[u8]) -> (r: PipePlan)
        requires
            self.wf(),
        ensures
            exists|m: Seq<char>| self.pipe_plan_spec(*mode, m, r),
    {
        let mime = sniff_mime(header);
        let r = self.dispatch_pipe_with_mime(mode, mime.as_str());
        proof {
            assert(self.pipe_plan_spec(*mode, mime@, r));
        }
        r
    }

    /// The handler for a URL's scheme; an unbound scheme is an error.
    pub fn dispatch_url(&self, url: &UrlParts) -> (r: Result<SchemeHandler, HandlerError>)
        ensures
            r is Ok <==> assoc_find(self.scheme_tbl.entries(), url.scheme@) is Some,
            r is Ok ==> r->Ok_0@ == assoc_find(self.scheme_tbl.entries(), url.scheme@)->0,
            r is Err ==> r->Err_0 is Other,
    {
        match crate::mapping::assoc_get(&self.scheme_tbl.schemes, url.scheme.as_str()) {
            Some(h) => Ok(h.clone()),
            None => Err(HandlerError::other("no handler for scheme")),
        }
    }
}

/// Relies on `tree_magic_mini::from_u8`: a best-guess MIME type for the
/// header bytes.  The guess comes from the shared MIME database the crate
/// finds on the machine at run time, so the result is not a function of
/// the bytes alone and nothing is claimed of it; it does not return only
/// on a machine that offers no MIME database at all.
#[verifier::external_body]
fn sniff_mime(header: &[u8]) -> String {
    tree_magic_mini::from_u8(header).to_owned()
}

/// The parts of a parsed URL that dispatch reads.
#[derive(Debug)]
pub struct UrlParts {
    /// The scheme, lower-cased, without the `:` delimiter.
    pub scheme: String,
    /// Everything after the `scheme://` prefix; for a `file` URL this is
    /// the local path.
    pub rest: String,
    /// The full normalized URL.
    pub full: String,
}

/// What `url::Url::parse` yields: `None` for input that is no URL, else
/// the lower-cased scheme, the part after the `scheme://` prefix, and
/// the full normalized URL; determined by the input alone.
pub uninterp spec fn url_parts_of(s: Seq<char>) -> Option<(Seq<char>, Seq<char>, Seq<char>)>;

/// Relies on `url::Url::parse`, `Url::scheme`, the indexing by
/// `url::Position::BeforeUsername` and `Url::as_str`: parsing succeeds or
/// fails as the function `url_parts_of` of the input says, and the three
/// named components are returned.
#[verifier::external_body]
fn parse_url(s: &str) -> (r: Option<UrlParts>)
    ensures
        r is Some <==> url_parts_of(s@) is Some,
        r is Some ==> {
            &&& r->0.scheme@ == (url_parts_of(s@)->0).0
            &&& r->0.rest@ == (url_parts_of(s@)->0).1
            &&& r->0.full@ == (url_parts_of(s@)->0).2
        },
{
    match url::Url::parse(s) {
        Ok(u) => {
            let scheme = u.scheme().to_owned();
            let rest = u[url::Position::BeforeUsername..].to_owned();
            let full = u.as_str().to_owned();
            Some(UrlParts { scheme, rest, full })
        },
        Err(_) => None,
    }
}

/// Where a path argument is routed.
pub enum PathRoute {
    /// Dispatch as a local path.
    Local { path: String },
    /// Dispatch through the scheme table.
    Remote { url: UrlParts },
}

/// Route a path argument: outside XdgOpen mode it is a local path; in
/// XdgOpen mode a parsed `file` URL is rewritten to its local path, any
/// other parsed URL goes to the scheme table, and a non-URL stays a
/// local path.
pub fn route_path(mode: &RsopMode, path: &str) -> (r: PathRoute)
    ensures
        *mode != RsopMode::XdgOpen ==> (r matches PathRoute::Local { path: p } && p@ == path@),
        *mode == RsopMode::XdgOpen ==> match url_parts_of(path@) {
            None => r matches PathRoute::Local { path: p } && p@ == path@,
            Some((scheme, rest, full)) => {
                if scheme == "file"@ {
                    r matches PathRoute::Local { path: p } && p@ == rest
                } else {
                    r matches PathRoute::Remote { url } && url.scheme@ == scheme && url.rest@
                        == rest && url.full@ == full
                }
            },
        },
{
    if *mode != RsopMode::XdgOpen {
        return PathRoute::Local { path: copy_str(path) };
    }
    match parse_url(path) {
        Some(url) => {
            if str_eq(url.scheme.as_str(), "file") {
                PathRoute::Local { path: url.rest }
            } else {
                PathRoute::Remote { url }
            }
        },
        None => PathRoute::Local { path: copy_str(path) },
    }
}

} // verus!
