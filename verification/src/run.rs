//! Invocation planning: from a resolved processor and its subject to the
//! exact command to spawn — argument vector, stream wiring, the marker
//! for a materialized standard-input copy, and the wait policy.  The
//! caller spawns the command exactly as planned; for a filter it feeds
//! the child's output back through pipe dispatch and then reaps the
//! child.

use vstd::prelude::*;
use crate::config::FileFilter;
use crate::config::FileFilterV;
use crate::config::FileHandler;
use crate::config::FileHandlerV;
use crate::config::SchemeHandler;
use crate::error::HandlerError;
use crate::mapping::FileProcessor;
use crate::mapping::FileProcessorV;
use crate::mapping::HandlerMapping;
use crate::template::build_cmd;
use crate::template::build_cmd_spec;
use crate::template::has_nul;
use crate::template::opt_view;
use crate::template::quoted_path;
use crate::template::substitute;
use crate::template::substitute_spec;
use crate::text::copy_str;

verus! {

/// How one of a child's standard streams is wired.
#[derive(Clone, Copy, Debug, PartialEq, Eq, Structural)]
pub enum StreamSpec {
    /// Inherited from the dispatching process.
    Inherit,
    /// Closed (wired to the null device).
    Null,
    /// Piped to or from the dispatching process.
    Piped,
}

/// A planned command invocation.
#[derive(Debug)]
pub struct Invocation {
    /// The argument vector; the first element is the program.
    pub args: Vec<String>,
    pub stdin_spec: StreamSpec,
    pub stdout_spec: StreamSpec,
    pub stderr_spec: StreamSpec,
    /// Whether to mark the environment that standard input was
    /// materialized into the file the command is given.
    pub mark_stdin_copy: bool,
    /// Whether the caller must wait for the child to exit.
    pub wait: bool,
}

/// The argument vector for a command template applied to a subject.
pub open spec fn cmd_args_spec(
    command: Seq<char>,
    shell: bool,
    path: Seq<char>,
    mime: Option<Seq<char>>,
    cols: u16,
    rows: u16,
) -> Option<Seq<Seq<char>>> {
    build_cmd_spec(substitute_spec(command, quoted_path(path), mime, cols, rows), shell)
}

/// Substitution and splitting both succeed: the path can be quoted and
/// the substituted command parses as shell words (or is shell-wrapped).
pub open spec fn cmd_ok(
    command: Seq<char>,
    shell: bool,
    path: Seq<char>,
    mime: Option<Seq<char>>,
    cols: u16,
    rows: u16,
) -> bool {
    &&& !(path.len() > 0 && has_nul(path))
    &&& cmd_args_spec(command, shell, path, mime, cols, rows) is Some
}

/// The nominal path a piped subject is given: the temporary file when
/// one was materialized, else the configured stdin argument, else `-`.
pub open spec fn pipe_nominal_path(stdin_arg: Option<Seq<char>>, tmp: Option<Seq<char>>) -> Seq<
    char,
> {
    match tmp {
        Some(t) => t,
        None => match stdin_arg {
            Some(a) => a,
            None => "-"@,
        },
    }
}

/// The invocation for a handler on a path: standard input closed, output
/// inherited when waiting and discarded when detaching.
pub open spec fn is_path_handler_invocation(
    inv: Invocation,
    h: FileHandlerV,
    path: Seq<char>,
    mime: Option<Seq<char>>,
    cols: u16,
    rows: u16,
) -> bool {
    &&& inv.args.deep_view() == cmd_args_spec(h.command, h.shell, path, mime, cols, rows)->0
    &&& inv.stdin_spec == StreamSpec::Null
    &&& inv.stdout_spec == (if h.wait {
        StreamSpec::Inherit
    } else {
        StreamSpec::Null
    })
    &&& inv.stderr_spec == (if h.wait {
        StreamSpec::Inherit
    } else {
        StreamSpec::Null
    })
    &&& inv.mark_stdin_copy == false
    &&& inv.wait == h.wait
}

/// The invocation for a filter on a path: standard input closed,
/// standard output piped for redispatch.
pub open spec fn is_path_filter_invocation(
    inv: Invocation,
    f: FileFilterV,
    path: Seq<char>,
    mime: Option<Seq<char>>,
    cols: u16,
    rows: u16,
) -> bool {
    &&& inv.args.deep_view() == cmd_args_spec(f.command, f.shell, path, mime, cols, rows)->0
    &&& inv.stdin_spec == StreamSpec::Null
    &&& inv.stdout_spec == StreamSpec::Piped
    &&& inv.stderr_spec == StreamSpec::Inherit
    &&& inv.mark_stdin_copy == false
    &&& inv.wait == false
}

/// The invocation for a handler on piped input: the subject is the
/// nominal path; standard input is piped unless a temporary file stands
/// in for it, and then the copy marker is set; the caller waits when the
/// handler asks to or when a temporary file must outlive the child.
pub open spec fn is_pipe_handler_invocation(
    inv: Invocation,
    h: FileHandlerV,
    tmp: Option<Seq<char>>,
    mime: Option<Seq<char>>,
    cols: u16,
    rows: u16,
) -> bool {
    &&& inv.args.deep_view() == cmd_args_spec(
        h.command,
        h.shell,
        pipe_nominal_path(h.stdin_arg, tmp),
        mime,
        cols,
        rows,
    )->0
    &&& inv.stdin_spec == (if tmp is Some {
        StreamSpec::Null
    } else {
        StreamSpec::Piped
    })
    &&& inv.mark_stdin_copy == (tmp is Some)
    &&& inv.stdout_spec == (if h.wait {
        StreamSpec::Inherit
    } else {
        StreamSpec::Null
    })
    &&& inv.stderr_spec == (if h.wait {
        StreamSpec::Inherit
    } else {
        StreamSpec::Null
    })
    &&& inv.wait == (h.wait || h.no_pipe)
}

/// The invocation for a filter on piped input: as for a handler, but
/// standard output is piped for redispatch and the caller always reaps
/// the child itself.
pub open spec fn is_pipe_filter_invocation(
    inv: Invocation,
    f: FileFilterV,
    tmp: Option<Seq<char>>,
    mime: Option<Seq<char>>,
    cols: u16,
    rows: u16,
) -> bool {
    &&& inv.args.deep_view() == cmd_args_spec(
        f.command,
        f.shell,
        pipe_nominal_path(f.stdin_arg, tmp),
        mime,
        cols,
        rows,
    )->0
    &&& inv.stdin_spec == (if tmp is Some {
        StreamSpec::Null
    } else {
        StreamSpec::Piped
    })
    &&& inv.mark_stdin_copy == (tmp is Some)
    &&& inv.stdout_spec == StreamSpec::Piped
    &&& inv.stderr_spec == StreamSpec::Inherit
    &&& inv.wait == false
}

/// A planned run of a resolved processor.
pub enum RunPlan {
    /// Spawn as planned; wait as the invocation says.
    Handler(Invocation),
    /// Spawn as planned, feed the child's standard output back through
    /// pipe dispatch, then kill and reap the child whatever the outcome.
    Filter(Invocation),
}

impl HandlerMapping {
    /// Plan a handler run for a path subject.
    pub fn run_path_handler(
        handler: &FileHandler,
        path: &str,
        mime: Option<&str>,
        term_size: (u16, u16),
    ) -> (r: Result<Invocation, HandlerError>)
        ensures
            r is Ok <==> cmd_ok(
                handler@.command,
                handler@.shell,
                path@,
                opt_view(mime),
                term_size.0,
                term_size.1,
            ),
            r is Ok ==> is_path_handler_invocation(
                r->Ok_0,
                handler@,
                path@,
                opt_view(mime),
                term_size.0,
                term_size.1,
            ),
            r is Err ==> r->Err_0 is Other,
    {
        let cmd = match substitute(handler.command.as_str(), path, mime, term_size) {
            Ok(c) => c,
            Err(e) => {
                return Err(e);
            },
        };
        let args = match build_cmd(cmd.as_str(), handler.shell) {
            Ok(a) => a,
            Err(e) => {
                return Err(e);
            },
        };
        let out = if handler.wait {
            StreamSpec::Inherit
        } else {
            StreamSpec::Null
        };
        Ok(
            Invocation {
                args,
                stdin_spec: StreamSpec::Null,
                stdout_spec: out,
                stderr_spec: out,
                mark_stdin_copy: false,
                wait: handler.wait,
            },
        )
    }

    /// Plan a filter run for a path subject.
    pub fn run_path_filter(
        filter: &FileFilter,
        path: &str,
        mime: Option<&str>,
        term_size: (u16, u16),
    ) -> (r: Result<Invocation, HandlerError>)
        ensures
            r is Ok <==> cmd_ok(
                filter@.command,
                filter@.shell,
                path@,
                opt_view(mime),
                term_size.0,
                term_size.1,
            ),
            r is Ok ==> is_path_filter_invocation(
                r->Ok_0,
                filter@,
                path@,
                opt_view(mime),
                term_size.0,
                term_size.1,
            ),
            r is Err ==> r->Err_0 is Other,
    {
        let cmd = match substitute(filter.command.as_str(), path, mime, term_size) {
            Ok(c) => c,
            Err(e) => {
                return Err(e);
            },
        };
        let args = match build_cmd(cmd.as_str(), filter.shell) {
            Ok(a) => a,
            Err(e) => {
                return Err(e);
            },
        };
        Ok(
            Invocation {
                args,
                stdin_spec: StreamSpec::Null,
                stdout_spec: StreamSpec::Piped,
                stderr_spec: StreamSpec::Inherit,
                mark_stdin_copy: false,
                wait: false,
            },
        )
    }

    /// Plan a handler run for piped input.  `tmp_file` is the path of
    /// the temporary file the caller materialized the stream into, for a
    /// handler that cannot read a pipe.
    pub fn run_pipe_handler(
        handler: &FileHandler,
        tmp_file: Option<&str>,
        mime: Option<&str>,
        term_size: (u16, u16),
    ) -> (r: Result<Invocation, HandlerError>)
        ensures
            r is Ok <==> cmd_ok(
                handler@.command,
                handler@.shell,
                pipe_nominal_path(handler@.stdin_arg, opt_view(tmp_file)),
                opt_view(mime),
                term_size.0,
                term_size.1,
            ),
            r is Ok ==> is_pipe_handler_invocation(
                r->Ok_0,
                handler@,
                opt_view(tmp_file),
                opt_view(mime),
                term_size.0,
                term_size.1,
            ),
            r is Err ==> r->Err_0 is Other,
    {
        let nominal: String = match tmp_file {
            Some(t) => copy_str(t),
            None => match &handler.stdin_arg {
                Some(a) => a.clone(),
                None => copy_str("-"),
            },
        };
        let cmd = match substitute(handler.command.as_str(), nominal.as_str(), mime, term_size) {
            Ok(c) => c,
            Err(e) => {
                return Err(e);
            },
        };
        let args = match build_cmd(cmd.as_str(), handler.shell) {
            Ok(a) => a,
            Err(e) => {
                return Err(e);
            },
        };
        let out = if handler.wait {
            StreamSpec::Inherit
        } else {
            StreamSpec::Null
        };
        let uses_tmp = tmp_file.is_some();
        Ok(
            Invocation {
                args,
                stdin_spec: if uses_tmp {
                    StreamSpec::Null
                } else {
                    StreamSpec::Piped
                },
                stdout_spec: out,
                stderr_spec: out,
                mark_stdin_copy: uses_tmp,
                wait: handler.wait || handler.no_pipe,
            },
        )
    }

    /// Plan a filter run for piped input.  `tmp_file` as in
    /// `run_pipe_handler`.
    pub fn run_pipe_filter(
        filter: &FileFilter,
        mime: Option<&str>,
        tmp_file: Option<&str>,
        term_size: (u16, u16),
    ) -> (r: Result<Invocation, HandlerError>)
        ensures
            r is Ok <==> cmd_ok(
                filter@.command,
                filter@.shell,
                pipe_nominal_path(filter@.stdin_arg, opt_view(tmp_file)),
                opt_view(mime),
                term_size.0,
                term_size.1,
            ),
            r is Ok ==> is_pipe_filter_invocation(
                r->Ok_0,
                filter@,
                opt_view(tmp_file),
                opt_view(mime),
                term_size.0,
                term_size.1,
            ),
            r is Err ==> r->Err_0 is Other,
    {
        let nominal: String = match tmp_file {
            Some(t) => copy_str(t),
            None => match &filter.stdin_arg {
                Some(a) => a.clone(),
                None => copy_str("-"),
            },
        };
        let cmd = match substitute(filter.command.as_str(), nominal.as_str(), mime, term_size) {
            Ok(c) => c,
            Err(e) => {
                return Err(e);
            },
        };
        let args = match build_cmd(cmd.as_str(), filter.shell) {
            Ok(a) => a,
            Err(e) => {
                return Err(e);
            },
        };
        let uses_tmp = tmp_file.is_some();
        Ok(
            Invocation {
                args,
                stdin_spec: if uses_tmp {
                    StreamSpec::Null
                } else {
                    StreamSpec::Piped
                },
                stdout_spec: StreamSpec::Piped,
                stderr_spec: StreamSpec::Inherit,
                mark_stdin_copy: uses_tmp,
                wait: false,
            },
        )
    }

    /// Plan a scheme-handler run for a URL: fire and forget, with all
    /// three standard streams closed.
    pub fn run_url(handler: &SchemeHandler, url: &str, term_size: (u16, u16)) -> (r: Result<
        Invocation,
        HandlerError,
    >)
        ensures
            r is Ok <==> cmd_ok(
                handler@.command,
                handler@.shell,
                url@,
                None,
                term_size.0,
                term_size.1,
            ),
            r is Ok ==> {
                let inv = r->Ok_0;
                &&& inv.args.deep_view() == cmd_args_spec(
                    handler@.command,
                    handler@.shell,
                    url@,
                    None,
                    term_size.0,
                    term_size.1,
                )->0
                &&& inv.stdin_spec == StreamSpec::Null
                &&& inv.stdout_spec == StreamSpec::Null
                &&& inv.stderr_spec == StreamSpec::Null
                &&& inv.mark_stdin_copy == false
                &&& inv.wait == false
            },
            r is Err ==> r->Err_0 is Other,
    {
        let cmd = match substitute(handler.command.as_str(), url, None, term_size) {
            Ok(c) => c,
            Err(e) => {
                return Err(e);
            },
        };
        let args = match build_cmd(cmd.as_str(), handler.shell) {
            Ok(a) => a,
            Err(e) => {
                return Err(e);
            },
        };
        Ok(
            Invocation {
                args,
                stdin_spec: StreamSpec::Null,
                stdout_spec: StreamSpec::Null,
                stderr_spec: StreamSpec::Null,
                mark_stdin_copy: false,
                wait: false,
            },
        )
    }

    /// Plan how the processor at `processor` runs a path subject: a
    /// handler is spawned and possibly awaited; a filter is spawned with
    /// its output piped back into dispatch.
    pub fn run_path(&self, processor: usize, path: &str, mime: Option<&str>, term_size: (u16, u16))
        -> (r: Result<RunPlan, HandlerError>)
        requires
            processor < self.processors@.len(),
        ensures
            ({
                let p = self.procs_view()[processor as int];
                match p {
                    FileProcessorV::Handler(h) => {
                        &&& (r is Ok <==> cmd_ok(
                            h.command,
                            h.shell,
                            path@,
                            opt_view(mime),
                            term_size.0,
                            term_size.1,
                        ))
                        &&& (r is Ok ==> (r->Ok_0 matches RunPlan::Handler(inv)
                            && is_path_handler_invocation(
                            inv,
                            h,
                            path@,
                            opt_view(mime),
                            term_size.0,
                            term_size.1,
                        )))
                    },
                    FileProcessorV::Filter(f) => {
                        &&& (r is Ok <==> cmd_ok(
                            f.command,
                            f.shell,
                            path@,
                            opt_view(mime),
                            term_size.0,
                            term_size.1,
                        ))
                        &&& (r is Ok ==> (r->Ok_0 matches RunPlan::Filter(inv)
                            && is_path_filter_invocation(
                            inv,
                            f,
                            path@,
                            opt_view(mime),
                            term_size.0,
                            term_size.1,
                        )))
                    },
                }
            }),
            r is Err ==> r->Err_0 is Other,
    {
        proof {
            assert(self.procs_view()[processor as int] == self.processors@[processor as int]@);
        }
        match &self.processors[processor] {
            FileProcessor::Handler(h) => match Self::run_path_handler(h, path, mime, term_size) {
                Ok(inv) => Ok(RunPlan::Handler(inv)),
                Err(e) => Err(e),
            },
            FileProcessor::Filter(f) => match Self::run_path_filter(f, path, mime, term_size) {
                Ok(inv) => Ok(RunPlan::Filter(inv)),
                Err(e) => Err(e),
            },
        }
    }

    /// Plan how the processor at `processor` runs piped input.
    /// `tmp_file` is the temporary file the caller materialized the
    /// stream into, for a processor that cannot read a pipe.
    pub fn run_pipe(
        &self,
        processor: usize,
        tmp_file: Option<&str>,
        mime: Option<&str>,
        term_size: (u16, u16),
    ) -> (r: Result<RunPlan, HandlerError>)
        requires
            processor < self.processors@.len(),
        ensures
            ({
                let p = self.procs_view()[processor as int];
                match p {
                    FileProcessorV::Handler(h) => {
                        &&& (r is Ok <==> cmd_ok(
                            h.command,
                            h.shell,
                            pipe_nominal_path(h.stdin_arg, opt_view(tmp_file)),
                            opt_view(mime),
                            term_size.0,
                            term_size.1,
                        ))
                        &&& (r is Ok ==> (r->Ok_0 matches RunPlan::Handler(inv)
                            && is_pipe_handler_invocation(
                            inv,
                            h,
                            opt_view(tmp_file),
                            opt_view(mime),
                            term_size.0,
                            term_size.1,
                        )))
                    },
                    FileProcessorV::Filter(f) => {
                        &&& (r is Ok <==> cmd_ok(
                            f.command,
                            f.shell,
                            pipe_nominal_path(f.stdin_arg, opt_view(tmp_file)),
                            opt_view(mime),
                            term_size.0,
                            term_size.1,
                        ))
                        &&& (r is Ok ==> (r->Ok_0 matches RunPlan::Filter(inv)
                            && is_pipe_filter_invocation(
                            inv,
                            f,
                            opt_view(tmp_file),
                            opt_view(mime),
                            term_size.0,
                            term_size.1,
                        )))
                    },
                }
            }),
            r is Err ==> r->Err_0 is Other,
    {
        proof {
            assert(self.procs_view()[processor as int] == self.processors@[processor as int]@);
        }
        match &self.processors[processor] {
            FileProcessor::Handler(h) => match Self::run_pipe_handler(
                h,
                tmp_file,
                mime,
                term_size,
            ) {
                Ok(inv) => Ok(RunPlan::Handler(inv)),
                Err(e) => Err(e),
            },
            FileProcessor::Filter(f) => match Self::run_pipe_filter(f, mime, tmp_file, term_size) {
                Ok(inv) => Ok(RunPlan::Filter(inv)),
                Err(e) => Err(e),
            },
        }
    }
}

} // verus!
