//! The resolution tables: processors kept in one arena, and per-mode
//! association lists from extension and from MIME type to a processor
//! index, built once from the configuration.
//!
//! An association list is searched from its end, so a later binding for
//! the same key wins, as an insertion into a map would.

use vstd::prelude::*;
use crate::config::Config;
use crate::config::ConfigV;
use crate::config::FileFilter;
use crate::config::FileFilterV;
use crate::config::FileHandler;
use crate::config::FileHandlerV;
use crate::config::Filetype;
use crate::config::FiletypeV;
use crate::config::SchemeHandler;
use crate::config::SchemeHandlerV;
use crate::error::HandlerError;
use crate::template::count_pattern;
use crate::template::count_pattern_spec;
use crate::text::str_eq;

verus! {

/// A processor: either a filter whose output is dispatched again, or a
/// terminal handler.
#[derive(Debug)]
pub enum FileProcessor {
    Filter(FileFilter),
    Handler(FileHandler),
}

pub ghost enum FileProcessorV {
    Filter(FileFilterV),
    Handler(FileHandlerV),
}

impl View for FileProcessor {
    type V = FileProcessorV;

    open spec fn view(&self) -> FileProcessorV {
        match self {
            FileProcessor::Filter(f) => FileProcessorV::Filter(f@),
            FileProcessor::Handler(h) => FileProcessorV::Handler(h@),
        }
    }
}

impl FileProcessorV {
    /// The command template of either variant.
    pub open spec fn command(&self) -> Seq<char> {
        match self {
            FileProcessorV::Filter(f) => f.command,
            FileProcessorV::Handler(h) => h.command,
        }
    }

    /// Whether the processor must read its input from a file rather than
    /// from a pipe.
    pub open spec fn no_pipe(&self) -> bool {
        match self {
            FileProcessorV::Filter(f) => f.no_pipe,
            FileProcessorV::Handler(h) => h.no_pipe,
        }
    }
}

impl FileProcessor {
    /// True if the command template holds an un-escaped `%pattern`.
    pub fn has_pattern(&self, pattern: char) -> (r: bool)
        ensures
            r == (count_pattern_spec(self@.command(), pattern) > 0),
    {
        let command = match self {
            FileProcessor::Filter(f) => &f.command,
            FileProcessor::Handler(h) => &h.command,
        };
        count_pattern(command.as_str(), pattern) > 0
    }

    /// Whether the processor must read its input from a file rather than
    /// from a pipe.
    pub fn no_pipe(&self) -> (r: bool)
        ensures
            r == self@.no_pipe(),
    {
        match self {
            FileProcessor::Filter(f) => f.no_pipe,
            FileProcessor::Handler(h) => h.no_pipe,
        }
    }
}

/// The value bound to `key` in an association list where a later entry
/// wins.
pub open spec fn assoc_find<T>(entries: Seq<(Seq<char>, T)>, key: Seq<char>) -> Option<T>
    decreases entries.len(),
{
    if entries.len() == 0 {
        None
    } else if entries.last().0 == key {
        Some(entries.last().1)
    } else {
        assoc_find(entries.drop_last(), key)
    }
}

/// One `(key, index)` pair per key, all bound to the same index.
pub open spec fn pairs_for(keys: Seq<Seq<char>>, idx: int) -> Seq<(Seq<char>, int)> {
    keys.map_values(|k: Seq<char>| (k, idx))
}

/// The index entries of one table column.
pub open spec fn idx_entries(s: Seq<(String, usize)>) -> Seq<(Seq<char>, int)> {
    s.map_values(|p: (String, usize)| (p.0@, p.1 as int))
}

/// Look a key up in an association list of named records, later entries
/// winning.
pub(crate) fn assoc_get<'a, T: View>(entries: &'a Vec<(String, T)>, key: &str) -> (r: Option<
    &'a T,
>)
    ensures
        match r {
            Some(v) => assoc_find(crate::config::entries_view(entries@), key@) == Some(v@),
            None => assoc_find(crate::config::entries_view(entries@), key@) is None,
        },
{
    let ghost ev = crate::config::entries_view(entries@);
    let n = entries.len();
    let mut j = n;
    proof {
        assert(ev.take(n as int) =~= ev);
    }
    while j > 0
        invariant
            j <= n,
            n == entries@.len(),
            ev == crate::config::entries_view(entries@),
            ev.len() == n,
            assoc_find(ev, key@) == assoc_find(ev.take(j as int), key@),
        decreases j,
    {
        j = j - 1;
        proof {
            assert(ev.take(j + 1 as int).last() == ev[j as int]);
            assert(ev.take(j + 1 as int).drop_last() =~= ev.take(j as int));
            assert(ev[j as int] == (entries@[j as int].0@, entries@[j as int].1@));
        }
        if str_eq(entries[j].0.as_str(), key) {
            return Some(&entries[j].1);
        }
    }
    proof {
        assert(ev.take(0).len() == 0);
    }
    None
}

/// One mode's lookup tables: extension and MIME association lists into
/// the processor arena, and the mode's default handler.
#[derive(Debug)]
pub struct FileHandlers {
    pub extensions: Vec<(String, usize)>,
    pub mimes: Vec<(String, usize)>,
    pub default: FileHandler,
}

impl FileHandlers {
    /// The extension table, as (key, processor index) pairs.
    pub open spec fn ext_entries(&self) -> Seq<(Seq<char>, int)> {
        idx_entries(self.extensions@)
    }

    /// The MIME table, as (key, processor index) pairs.
    pub open spec fn mime_entries(&self) -> Seq<(Seq<char>, int)> {
        idx_entries(self.mimes@)
    }

    /// Every index points into an arena of `arena_len` processors.
    pub open spec fn wf(&self, arena_len: int) -> bool {
        &&& forall|k: int|
            0 <= k < self.ext_entries().len() ==> 0 <= (#[trigger] self.ext_entries()[k]).1
                < arena_len
        &&& forall|k: int|
            0 <= k < self.mime_entries().len() ==> 0 <= (#[trigger] self.mime_entries()[k]).1
                < arena_len
    }

    /// An empty table with the given default handler.
    pub fn new(default: &FileHandler) -> (r: FileHandlers)
        ensures
            r.extensions@.len() == 0,
            r.mimes@.len() == 0,
            r.default@ == default@,
    {
        FileHandlers { extensions: Vec::new(), mimes: Vec::new(), default: default.clone() }
    }

    /// Bind every extension and every MIME type of `filetype` to the
    /// processor at index `processor`.
    pub fn add(&mut self, processor: usize, filetype: &Filetype)
        ensures
            final(self).ext_entries() == old(self).ext_entries() + pairs_for(
                filetype@.extensions,
                processor as int,
            ),
            final(self).mime_entries() == old(self).mime_entries() + pairs_for(
                filetype@.mimes,
                processor as int,
            ),
            final(self).default == old(self).default,
    {
        let n = filetype.extensions.len();
        let mut j: usize = 0;
        while j < n
            invariant
                j <= n,
                n == filetype.extensions@.len(),
                self.ext_entries() =~= old(self).ext_entries() + pairs_for(
                    filetype@.extensions.take(j as int),
                    processor as int,
                ),
                self.mimes == old(self).mimes,
                self.default == old(self).default,
            decreases n - j,
        {
            let ghost before = self.ext_entries();
            self.extensions.push((filetype.extensions[j].clone(), processor));
            proof {
                assert(filetype.extensions@[j as int]@ == filetype@.extensions[j as int]);
                assert(self.ext_entries() =~= before.push(
                    (filetype@.extensions[j as int], processor as int),
                ));
                assert(self.ext_entries() =~= old(self).ext_entries() + pairs_for(
                    filetype@.extensions.take(j + 1 as int),
                    processor as int,
                ));
            }
            j = j + 1;
        }
        proof {
            assert(filetype@.extensions.take(n as int) =~= filetype@.extensions);
            assert(self.ext_entries() =~= old(self).ext_entries() + pairs_for(
                filetype@.extensions,
                processor as int,
            ));
        }
        let m = filetype.mimes.len();
        let ghost mid_ext = self.ext_entries();
        let mut j2: usize = 0;
        while j2 < m
            invariant
                j2 <= m,
                m == filetype.mimes@.len(),
                self.ext_entries() == mid_ext,
                self.mime_entries() =~= old(self).mime_entries() + pairs_for(
                    filetype@.mimes.take(j2 as int),
                    processor as int,
                ),
                self.default == old(self).default,
            decreases m - j2,
        {
            let ghost before = self.mime_entries();
            self.mimes.push((filetype.mimes[j2].clone(), processor));
            proof {
                assert(filetype.mimes@[j2 as int]@ == filetype@.mimes[j2 as int]);
                assert(self.mime_entries() =~= before.push(
                    (filetype@.mimes[j2 as int], processor as int),
                ));
                assert(self.mime_entries() =~= old(self).mime_entries() + pairs_for(
                    filetype@.mimes.take(j2 + 1 as int),
                    processor as int,
                ));
            }
            j2 = j2 + 1;
        }
        proof {
            assert(filetype@.mimes.take(m as int) =~= filetype@.mimes);
            assert(self.mime_entries() =~= old(self).mime_entries() + pairs_for(
                filetype@.mimes,
                processor as int,
            ));
        }
    }
}

/// The scheme table: an association list from URL scheme to handler.
#[derive(Debug)]
pub struct SchemeHandlers {
    pub schemes: Vec<(String, SchemeHandler)>,
}

impl SchemeHandlers {
    /// The table as (scheme, handler) pairs.
    pub open spec fn entries(&self) -> Seq<(Seq<char>, SchemeHandlerV)> {
        crate::config::entries_view(self.schemes@)
    }

    /// An empty scheme table.
    pub fn new() -> (r: SchemeHandlers)
        ensures
            r.schemes@.len() == 0,
    {
        SchemeHandlers { schemes: Vec::new() }
    }

    /// Bind a scheme to a handler.
    pub fn add(&mut self, handler: &SchemeHandler, scheme: &str)
        ensures
            final(self).entries() == old(self).entries().push((scheme@, handler@)),
    {
        let s = crate::text::str_to_chars(scheme);
        self.schemes.push((crate::text::chars_to_string(&s), handler.clone()));
        proof {
            assert(self.entries() =~= old(self).entries().push((scheme@, handler@)));
        }
    }
}

/// The spec-level image of the tables while they are being built.
pub ghost struct TablesV {
    pub procs: Seq<FileProcessorV>,
    pub preview_ext: Seq<(Seq<char>, int)>,
    pub preview_mime: Seq<(Seq<char>, int)>,
    pub open_ext: Seq<(Seq<char>, int)>,
    pub open_mime: Seq<(Seq<char>, int)>,
    pub edit_ext: Seq<(Seq<char>, int)>,
    pub edit_mime: Seq<(Seq<char>, int)>,
}

/// A handler passes validation: it may not detach while routing through
/// a temporary file, and a command with more than one un-escaped `%i`
/// must read from a file.
pub open spec fn handler_ok(h: FileHandlerV) -> bool {
    &&& !h.no_pipe || h.wait
    &&& h.no_pipe || count_pattern_spec(h.command, 'i') <= 1
}

/// A filter passes validation: a command with more than one un-escaped
/// `%i` must read from a file.
pub open spec fn filter_ok(f: FileFilterV) -> bool {
    f.no_pipe || count_pattern_spec(f.command, 'i') <= 1
}

/// A filetype is bound to at least one handler or filter, and each bound
/// record passes validation.
pub open spec fn filetype_ok(cfg: ConfigV, name: Seq<char>) -> bool {
    let ho = assoc_find(cfg.handler_open, name);
    let he = assoc_find(cfg.handler_edit, name);
    let hp = assoc_find(cfg.handler_preview, name);
    let fl = assoc_find(cfg.filter, name);
    &&& (ho is Some || he is Some || hp is Some || fl is Some)
    &&& (ho is Some ==> handler_ok(ho->0))
    &&& (he is Some ==> handler_ok(he->0))
    &&& (hp is Some ==> handler_ok(hp->0))
    &&& (fl is Some ==> filter_ok(fl->0))
}

/// Every filetype of the configuration passes validation.
pub open spec fn config_ok(cfg: ConfigV) -> bool {
    forall|i: int|
        0 <= i < cfg.filetype.len() ==> filetype_ok(cfg, (#[trigger] cfg.filetype[i]).0)
}

pub open spec fn step_open(t: TablesV, cfg: ConfigV, name: Seq<char>, ft: FiletypeV) -> TablesV {
    match assoc_find(cfg.handler_open, name) {
        Some(h) => TablesV {
            procs: t.procs.push(FileProcessorV::Handler(h)),
            open_ext: t.open_ext + pairs_for(ft.extensions, t.procs.len() as int),
            open_mime: t.open_mime + pairs_for(ft.mimes, t.procs.len() as int),
            ..t
        },
        None => t,
    }
}

pub open spec fn step_edit(t: TablesV, cfg: ConfigV, name: Seq<char>, ft: FiletypeV) -> TablesV {
    match assoc_find(cfg.handler_edit, name) {
        Some(h) => TablesV {
            procs: t.procs.push(FileProcessorV::Handler(h)),
            edit_ext: t.edit_ext + pairs_for(ft.extensions, t.procs.len() as int),
            edit_mime: t.edit_mime + pairs_for(ft.mimes, t.procs.len() as int),
            ..t
        },
        None => t,
    }
}

pub open spec fn step_preview(t: TablesV, cfg: ConfigV, name: Seq<char>, ft: FiletypeV) -> TablesV {
    match assoc_find(cfg.handler_preview, name) {
        Some(h) => TablesV {
            procs: t.procs.push(FileProcessorV::Handler(h)),
            preview_ext: t.preview_ext + pairs_for(ft.extensions, t.procs.len() as int),
            preview_mime: t.preview_mime + pairs_for(ft.mimes, t.procs.len() as int),
            ..t
        },
        None => t,
    }
}

pub open spec fn step_filter(t: TablesV, cfg: ConfigV, name: Seq<char>, ft: FiletypeV) -> TablesV {
    match assoc_find(cfg.filter, name) {
        Some(f) => TablesV {
            procs: t.procs.push(FileProcessorV::Filter(f)),
            open_ext: t.open_ext + pairs_for(ft.extensions, t.procs.len() as int),
            open_mime: t.open_mime + pairs_for(ft.mimes, t.procs.len() as int),
            edit_ext: t.edit_ext + pairs_for(ft.extensions, t.procs.len() as int),
            edit_mime: t.edit_mime + pairs_for(ft.mimes, t.procs.len() as int),
            preview_ext: t.preview_ext + pairs_for(ft.extensions, t.procs.len() as int),
            preview_mime: t.preview_mime + pairs_for(ft.mimes, t.procs.len() as int),
        },
        None => t,
    }
}

/// One filetype's contribution to the tables: its open, edit and preview
/// handlers, then its filter, each pushed into the arena and bound to the
/// filetype's extensions and MIME types.
pub open spec fn build_step(t: TablesV, cfg: ConfigV, name: Seq<char>, ft: FiletypeV) -> TablesV {
    step_filter(step_preview(step_edit(step_open(t, cfg, name, ft), cfg, name, ft), cfg, name, ft), cfg, name, ft)
}

pub open spec fn empty_tables() -> TablesV {
    TablesV {
        procs: Seq::empty(),
        preview_ext: Seq::empty(),
        preview_mime: Seq::empty(),
        open_ext: Seq::empty(),
        open_mime: Seq::empty(),
        edit_ext: Seq::empty(),
        edit_mime: Seq::empty(),
    }
}

/// The tables after the first `n` filetypes of the configuration.
pub open spec fn build_tables(cfg: ConfigV, n: int) -> TablesV
    decreases n,
{
    if n <= 0 {
        empty_tables()
    } else {
        build_step(build_tables(cfg, n - 1), cfg, cfg.filetype[n - 1].0, cfg.filetype[n - 1].1)
    }
}

/// The resolution tables of one run: a processor arena, one table per
/// mode, and the scheme table.
#[derive(Debug)]
pub struct HandlerMapping {
    pub processors: Vec<FileProcessor>,
    pub preview_tbl: FileHandlers,
    pub open_tbl: FileHandlers,
    pub edit_tbl: FileHandlers,
    pub scheme_tbl: SchemeHandlers,
}

impl HandlerMapping {
    /// The arena, as processor views.
    pub open spec fn procs_view(&self) -> Seq<FileProcessorV> {
        self.processors@.map_values(|p: FileProcessor| p@)
    }

    /// Every table index points into the arena.
    pub open spec fn wf(&self) -> bool {
        &&& self.preview_tbl.wf(self.processors@.len() as int)
        &&& self.open_tbl.wf(self.processors@.len() as int)
        &&& self.edit_tbl.wf(self.processors@.len() as int)
    }

    /// Validate one handler record, as construction does.
    pub fn validate_handler(handler: &FileHandler) -> (r: Result<(), HandlerError>)
        ensures
            r is Ok <==> handler_ok(handler@),
            r is Err ==> r->Err_0 is Other,
    {
        if handler.no_pipe && !handler.wait {
            return Err(
                HandlerError::other("handler can not have both 'no_pipe = true' and 'wait = false'"),
            );
        }
        if !handler.no_pipe && count_pattern(handler.command.as_str(), 'i') > 1 {
            return Err(
                HandlerError::other(
                    "handler can not have both 'no_pipe = false' and multiple %i in command",
                ),
            );
        }
        Ok(())
    }

    /// Build the resolution tables from a configuration.
    ///
    /// Fails exactly when some filetype is bound to nothing, or a bound
    /// handler or filter fails validation.  On success the tables are
    /// exactly the fold of the configuration's filetypes, in order, the
    /// defaults are the configured ones (edit reusing open's), and the
    /// scheme table holds the configured scheme handlers.
    pub fn new(cfg: &Config) -> (r: Result<HandlerMapping, HandlerError>)
        ensures
            r is Ok <==> config_ok(cfg@),
            r is Err ==> r->Err_0 is Other,
            r is Ok ==> {
                let m = r->Ok_0;
                let t = build_tables(cfg@, cfg@.filetype.len() as int);
                &&& m.wf()
                &&& m.procs_view() == t.procs
                &&& m.preview_tbl.ext_entries() == t.preview_ext
                &&& m.preview_tbl.mime_entries() == t.preview_mime
                &&& m.open_tbl.ext_entries() == t.open_ext
                &&& m.open_tbl.mime_entries() == t.open_mime
                &&& m.edit_tbl.ext_entries() == t.edit_ext
                &&& m.edit_tbl.mime_entries() == t.edit_mime
                &&& m.preview_tbl.default@ == cfg.default_handler_preview@
                &&& m.open_tbl.default@ == cfg.default_handler_open@
                &&& m.edit_tbl.default@ == cfg.default_handler_open@
                &&& m.scheme_tbl.entries() == cfg@.handler_scheme
            },
    {
        let mut processors: Vec<FileProcessor> = Vec::new();
        let mut handlers_open = FileHandlers::new(&cfg.default_handler_open);
        let mut handlers_edit = FileHandlers::new(&cfg.default_handler_open);
        let mut handlers_preview = FileHandlers::new(&cfg.default_handler_preview);
        let n = cfg.filetype.len();
        let mut i: usize = 0;
        proof {
            let t0 = build_tables(cfg@, 0);
            assert(processors@.map_values(|p: FileProcessor| p@) =~= t0.procs);
            assert(handlers_open.ext_entries() =~= t0.open_ext);
            assert(handlers_open.mime_entries() =~= t0.open_mime);
            assert(handlers_edit.ext_entries() =~= t0.edit_ext);
            assert(handlers_edit.mime_entries() =~= t0.edit_mime);
            assert(handlers_preview.ext_entries() =~= t0.preview_ext);
            assert(handlers_preview.mime_entries() =~= t0.preview_mime);
        }
        while i < n
            invariant
                i <= n,
                n == cfg.filetype@.len(),
                cfg@.filetype.len() == n,
                forall|k: int| 0 <= k < i ==> filetype_ok(cfg@, (#[trigger] cfg@.filetype[k]).0),
                ({
                    let t = build_tables(cfg@, i as int);
                    &&& processors@.map_values(|p: FileProcessor| p@) == t.procs
                    &&& handlers_open.ext_entries() == t.open_ext
                    &&& handlers_open.mime_entries() == t.open_mime
                    &&& handlers_edit.ext_entries() == t.edit_ext
                    &&& handlers_edit.mime_entries() == t.edit_mime
                    &&& handlers_preview.ext_entries() == t.preview_ext
                    &&& handlers_preview.mime_entries() == t.preview_mime
                }),
                handlers_open.wf(processors@.len() as int),
                handlers_edit.wf(processors@.len() as int),
                handlers_preview.wf(processors@.len() as int),
                handlers_open.default@ == cfg.default_handler_open@,
                handlers_edit.default@ == cfg.default_handler_open@,
                handlers_preview.default@ == cfg.default_handler_preview@,
            decreases n - i,
        {
            let name = cfg.filetype[i].0.as_str();
            let filetype = &cfg.filetype[i].1;
            proof {
                assert(cfg@.filetype[i as int] == (cfg.filetype@[i as int].0@, cfg.filetype@[i as int].1@));
            }
            let ghost gname = cfg@.filetype[i as int].0;
            let ghost gft = cfg@.filetype[i as int].1;
            let ghost t0 = build_tables(cfg@, i as int);
            let handler_open = assoc_get(&cfg.handler_open, name);
            let handler_edit = assoc_get(&cfg.handler_edit, name);
            let handler_preview = assoc_get(&cfg.handler_preview, name);
            let filter = assoc_get(&cfg.filter, name);
            if handler_open.is_none() && handler_edit.is_none() && handler_preview.is_none()
                && filter.is_none() {
                return Err(
                    HandlerError::other("filetype is not bound to any handler or filter"),
                );
            }
            if let Some(h) = handler_open {
                if let Err(e) = Self::validate_handler(h) {
                    return Err(e);
                }
                let idx = processors.len();
                processors.push(FileProcessor::Handler(h.clone()));
                handlers_open.add(idx, filetype);
                proof {
                    assert(processors@.map_values(|p: FileProcessor| p@) =~= t0.procs.push(
                        FileProcessorV::Handler(h@),
                    ));
                }
            }
            let ghost t1 = step_open(t0, cfg@, gname, gft);
            proof {
                assert(processors@.map_values(|p: FileProcessor| p@) == t1.procs);
                assert(handlers_open.ext_entries() == t1.open_ext);
                assert(handlers_open.mime_entries() == t1.open_mime);
                assert(handlers_edit.ext_entries() == t1.edit_ext);
                assert(handlers_edit.mime_entries() == t1.edit_mime);
                assert(handlers_preview.ext_entries() == t1.preview_ext);
                assert(handlers_preview.mime_entries() == t1.preview_mime);
            }
            if let Some(h) = handler_edit {
                if let Err(e) = Self::validate_handler(h) {
                    return Err(e);
                }
                let idx = processors.len();
                processors.push(FileProcessor::Handler(h.clone()));
                handlers_edit.add(idx, filetype);
                proof {
                    assert(processors@.map_values(|p: FileProcessor| p@) =~= t1.procs.push(
                        FileProcessorV::Handler(h@),
                    ));
                }
            }
            let ghost t2 = step_edit(t1, cfg@, gname, gft);
            proof {
                assert(processors@.map_values(|p: FileProcessor| p@) == t2.procs);
                assert(handlers_open.ext_entries() == t2.open_ext);
                assert(handlers_open.mime_entries() == t2.open_mime);
                assert(handlers_edit.ext_entries() == t2.edit_ext);
                assert(handlers_edit.mime_entries() == t2.edit_mime);
                assert(handlers_preview.ext_entries() == t2.preview_ext);
                assert(handlers_preview.mime_entries() == t2.preview_mime);
            }
            if let Some(h) = handler_preview {
                if let Err(e) = Self::validate_handler(h) {
                    return Err(e);
                }
                let idx = processors.len();
                processors.push(FileProcessor::Handler(h.clone()));
                handlers_preview.add(idx, filetype);
                proof {
                    assert(processors@.map_values(|p: FileProcessor| p@) =~= t2.procs.push(
                        FileProcessorV::Handler(h@),
                    ));
                }
            }
            let ghost t3 = step_preview(t2, cfg@, gname, gft);
            proof {
                assert(processors@.map_values(|p: FileProcessor| p@) == t3.procs);
                assert(handlers_open.ext_entries() == t3.open_ext);
                assert(handlers_open.mime_entries() == t3.open_mime);
                assert(handlers_edit.ext_entries() == t3.edit_ext);
                assert(handlers_edit.mime_entries() == t3.edit_mime);
                assert(handlers_preview.ext_entries() == t3.preview_ext);
                assert(handlers_preview.mime_entries() == t3.preview_mime);
            }
            if let Some(f) = filter {
                if !f.no_pipe && count_pattern(f.command.as_str(), 'i') > 1 {
                    return Err(
                        HandlerError::other(
                            "filter can not have both 'no_pipe = false' and multiple %i in command",
                        ),
                    );
                }
                let idx = processors.len();
                processors.push(FileProcessor::Filter(f.clone()));
                handlers_open.add(idx, filetype);
                handlers_edit.add(idx, filetype);
                handlers_preview.add(idx, filetype);
                proof {
                    assert(processors@.map_values(|p: FileProcessor| p@) =~= t3.procs.push(
                        FileProcessorV::Filter(f@),
                    ));
                }
            }
            let ghost t4 = step_filter(t3, cfg@, gname, gft);
            proof {
                assert(processors@.map_values(|p: FileProcessor| p@) == t4.procs);
                assert(handlers_open.ext_entries() == t4.open_ext);
                assert(handlers_open.mime_entries() == t4.open_mime);
                assert(handlers_edit.ext_entries() == t4.edit_ext);
                assert(handlers_edit.mime_entries() == t4.edit_mime);
                assert(handlers_preview.ext_entries() == t4.preview_ext);
                assert(handlers_preview.mime_entries() == t4.preview_mime);
                assert(t4 == build_tables(cfg@, i + 1 as int));
                assert(filetype_ok(cfg@, gname));
            }
            i = i + 1;
        }
        let mut handlers_scheme = SchemeHandlers::new();
        let ns = cfg.handler_scheme.len();
        let mut j: usize = 0;
        proof {
            assert(handlers_scheme.entries() =~= cfg@.handler_scheme.take(0));
        }
        while j < ns
            invariant
                j <= ns,
                ns == cfg.handler_scheme@.len(),
                cfg@.handler_scheme.len() == ns,
                handlers_scheme.entries() == cfg@.handler_scheme.take(j as int),
            decreases ns - j,
        {
            handlers_scheme.add(&cfg.handler_scheme[j].1, cfg.handler_scheme[j].0.as_str());
            proof {
                assert(cfg@.handler_scheme[j as int] == (
                    cfg.handler_scheme@[j as int].0@,
                    cfg.handler_scheme@[j as int].1@,
                ));
                assert(cfg@.handler_scheme.take(j as int).push(cfg@.handler_scheme[j as int])
                    =~= cfg@.handler_scheme.take(j + 1 as int));
            }
            j = j + 1;
        }
        proof {
            assert(cfg@.handler_scheme.take(ns as int) =~= cfg@.handler_scheme);
        }
        Ok(
            HandlerMapping {
                processors,
                preview_tbl: handlers_preview,
                open_tbl: handlers_open,
                edit_tbl: handlers_edit,
                scheme_tbl: handlers_scheme,
            },
        )
    }
}

} // verus!
