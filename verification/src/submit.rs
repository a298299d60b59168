//! The course of one submission: which host is tried, what is asked of the
//! user, when files are sent and printed, and when the run ends. The caller
//! performs each action and reports what came of it.

use crate::bad_names::{generate, job_name, plain};
use crate::error::{Error, ErrorClass};
use crate::lpr::{build_cmd, command_line, job_cmd, job_line};
use crate::options::{Opt, OptView};
use crate::session::{
    after, holds_transport, released, Operation, SessionState, TransferSession, FILE_NAME,
};
use crate::text::{chars_of, trim, trim_bounds};
use vstd::prelude::*;
use vstd::string::*;

verus! {

/// What the submission is waiting for.
#[derive(Debug, Clone, Copy, PartialEq, Eq, Structural)]
pub enum Phase {
    /// Nothing has happened yet.
    Start,
    /// The user is choosing a printer.
    ChoosingPrinter,
    /// A transport to the current host is being set up.
    Connecting,
    /// The user is asked for the login name.
    AskingUser,
    /// The user is asked for the password.
    AskingPassword,
    /// The credentials are with the host.
    Authenticating,
    /// The current file is being sent.
    Uploading,
    /// The current file is being printed.
    Printing,
    /// The user is asked whether to go on with the next host.
    Confirming,
    /// The run is over.
    Finished,
}

/// What came of the last action.
#[derive(Debug, Clone, PartialEq, Eq)]
pub enum Event {
    /// The run begins.
    Begin,
    /// The user committed this line.
    Line(String),
    /// The user gave no line: the input ended or was interrupted.
    NoLine,
    /// The action went through.
    Done,
    /// The remote command ran and left this exit status.
    Exit(i32),
    /// The action failed, with this description.
    Failed(String),
}

/// An event as plain values.
pub enum EventView {
    Begin,
    Line(Seq<char>),
    NoLine,
    Done,
    Exit(i32),
    Failed(Seq<char>),
}

impl View for Event {
    type V = EventView;

    open spec fn view(&self) -> EventView {
        match self {
            Event::Begin => EventView::Begin,
            Event::Line(s) => EventView::Line(s@),
            Event::NoLine => EventView::NoLine,
            Event::Done => EventView::Done,
            Event::Exit(status) => EventView::Exit(*status),
            Event::Failed(s) => EventView::Failed(s@),
        }
    }
}

/// What the caller is to do next.
#[derive(Debug, Clone, PartialEq, Eq)]
pub enum Action {
    /// Let the user choose a printer; answer with `Line` or `NoLine`.
    AskPrinter,
    /// Open a transport to this address; answer with `Done` or `Failed`.
    Connect { host: String },
    /// Ask for the login name; answer with `Line` or `NoLine`.
    AskUser,
    /// Ask for the password; answer with `Line` or `NoLine`.
    AskPassword,
    /// Log in; answer with `Done` or `Failed`.
    Authenticate { user: String, password: String },
    /// Send the file with this index; answer with `Done` or `Failed`.
    Upload { file: usize },
    /// Run this command on the host; answer with `Exit` or `Failed`.
    Execute { command: String },
    /// Show this command instead of running it; answer with `Done`.
    Show { command: String },
    /// Put this question to the user; answer with `Line` or `NoLine`.
    Confirm { question: String },
    /// Release what is held and end the run.
    Stop { success: bool },
}

/// An action as plain values.
pub enum ActionView {
    AskPrinter,
    Connect { host: Seq<char> },
    AskUser,
    AskPassword,
    Authenticate { user: Seq<char>, password: Seq<char> },
    Upload { file: usize },
    Execute { command: Seq<char> },
    Show { command: Seq<char> },
    Confirm { question: Seq<char> },
    Stop { success: bool },
}

impl View for Action {
    type V = ActionView;

    open spec fn view(&self) -> ActionView {
        match self {
            Action::AskPrinter => ActionView::AskPrinter,
            Action::Connect { host } => ActionView::Connect { host: host@ },
            Action::AskUser => ActionView::AskUser,
            Action::AskPassword => ActionView::AskPassword,
            Action::Authenticate { user, password } => ActionView::Authenticate {
                user: user@,
                password: password@,
            },
            Action::Upload { file } => ActionView::Upload { file: *file },
            Action::Execute { command } => ActionView::Execute { command: command@ },
            Action::Show { command } => ActionView::Show { command: command@ },
            Action::Confirm { question } => ActionView::Confirm { question: question@ },
            Action::Stop { success } => ActionView::Stop { success: *success },
        }
    }
}

/// What the caller is to tell the user before it acts.
#[derive(Debug, Clone, PartialEq, Eq)]
pub enum Notice {
    /// Nothing.
    Nothing,
    /// This failure.
    Failure(Error),
    /// The file with this index was printed.
    Printed { file: usize },
    /// The command for the file with this index left this exit status.
    Status { file: usize, status: i32 },
}

/// A notice as plain values.
pub enum NoticeView {
    Nothing,
    Failure(ErrorClass, Seq<char>),
    Printed { file: usize },
    Status { file: usize, status: i32 },
}

impl View for Notice {
    type V = NoticeView;

    open spec fn view(&self) -> NoticeView {
        match self {
            Notice::Nothing => NoticeView::Nothing,
            Notice::Failure(e) => NoticeView::Failure(e.class_of(), e.text()),
            Notice::Printed { file } => NoticeView::Printed { file: *file },
            Notice::Status { file, status } => NoticeView::Status { file: *file, status: *status },
        }
    }
}

/// The answer to an event: what to report, then what to do.
#[derive(Debug, Clone, PartialEq, Eq)]
pub struct Reply {
    pub notice: Notice,
    pub action: Action,
}

/// A reply as plain values.
pub struct ReplyView {
    pub notice: NoticeView,
    pub action: ActionView,
}

impl View for Reply {
    type V = ReplyView;

    open spec fn view(&self) -> ReplyView {
        ReplyView { notice: self.notice@, action: self.action@ }
    }
}

/// A submission as plain values.
pub struct SubmissionView {
    pub opt: OptView,
    pub hosts: Seq<Seq<char>>,
    pub phase: Phase,
    /// The host in use, or the one that failed last.
    pub host: usize,
    /// The file in work.
    pub file: usize,
    pub printer: Seq<char>,
    pub user: Seq<char>,
    pub session: SessionState,
    pub success: bool,
}

/// The question that offers `host` as the next one to try.
pub open spec fn question_for(host: Seq<char>) -> Seq<char> {
    "try again with \""@ + host + "\"? (y/n) "@
}

/// Whether `answer` accepts the offer: it does when it is `y`, white space
/// at its ends aside.
pub open spec fn says_yes(answer: Seq<char>) -> bool {
    trim(answer) == seq!['y']
}

impl SubmissionView {
    /// Whether the parts fit together: the host and the file in work exist,
    /// and the session is in the state that the phase calls for. A transport
    /// is held in the phases between connecting and the last print only.
    pub open spec fn wf(self) -> bool {
        match self.phase {
            Phase::Start => self.session == SessionState::Disconnected,
            Phase::ChoosingPrinter => self.session == SessionState::Disconnected
                && self.opt.files.len() > 0,
            Phase::Connecting => self.session == SessionState::Disconnected && self.host
                < self.hosts.len() && self.opt.files.len() > 0,
            Phase::AskingUser => self.session == SessionState::Connected && self.host
                < self.hosts.len() && self.opt.files.len() > 0,
            Phase::AskingPassword => self.session == SessionState::Connected && self.host
                < self.hosts.len() && self.opt.files.len() > 0,
            Phase::Authenticating => self.session == SessionState::Connected && self.host
                < self.hosts.len() && self.opt.files.len() > 0,
            Phase::Uploading => self.session == SessionState::Authenticated && self.host
                < self.hosts.len() && self.file < self.opt.files.len(),
            Phase::Printing => self.session == SessionState::Authenticated && self.host
                < self.hosts.len() && self.file < self.opt.files.len(),
            Phase::Confirming => self.session == SessionState::Failed && self.host + 1
                < self.hosts.len() && self.opt.files.len() > 0,
            Phase::Finished => !holds_transport(self.session),
        }
    }

    /// The run ends: the session is released and nothing more is done.
    pub open spec fn stop(self, notice: NoticeView, success: bool) -> (SubmissionView, ReplyView) {
        (
            SubmissionView {
                phase: Phase::Finished,
                session: released(self.session),
                success,
                ..self
            },
            ReplyView { notice, action: ActionView::Stop { success } },
        )
    }

    /// The host with index `host` is tried with a fresh session; where there
    /// is no such host the run ends.
    pub open spec fn connect_to(self, host: usize) -> (SubmissionView, ReplyView) {
        if host < self.hosts.len() {
            (
                SubmissionView {
                    phase: Phase::Connecting,
                    host,
                    session: SessionState::Disconnected,
                    ..self
                },
                ReplyView {
                    notice: NoticeView::Nothing,
                    action: ActionView::Connect { host: self.hosts[host as int] },
                },
            )
        } else {
            self.stop(NoticeView::Nothing, false)
        }
    }

    /// The printer is settled: an empty name ends the run, any other name
    /// leads to the first host.
    pub open spec fn settle_printer(self, printer: Seq<char>) -> (SubmissionView, ReplyView) {
        if printer.len() == 0 {
            self.stop(
                NoticeView::Failure(ErrorClass::Validation, "no printer specified"@),
                false,
            )
        } else {
            (SubmissionView { printer, ..self }).connect_to(0)
        }
    }

    /// Connecting or logging in has failed: the failure is reported, and the
    /// next host is offered where there is one.
    pub open spec fn fall_back(self, class: ErrorClass, text: Seq<char>) -> (
        SubmissionView,
        ReplyView,
    ) {
        let failed = SubmissionView { session: SessionState::Failed, ..self };
        if self.host + 1 < self.hosts.len() {
            (
                SubmissionView { phase: Phase::Confirming, ..failed },
                ReplyView {
                    notice: NoticeView::Failure(class, text),
                    action: ActionView::Confirm {
                        question: question_for(self.hosts[self.host + 1]),
                    },
                },
            )
        } else {
            failed.stop(NoticeView::Failure(class, text), false)
        }
    }

    /// Sending or printing a file has failed: the run ends with that failure.
    pub open spec fn give_up(self, text: Seq<char>) -> (SubmissionView, ReplyView) {
        (SubmissionView { session: SessionState::Failed, ..self }).stop(
            NoticeView::Failure(ErrorClass::Io, text),
            false,
        )
    }

    /// The event does not answer the pending action: the run ends.
    pub open spec fn misfit(self) -> (SubmissionView, ReplyView) {
        self.stop(NoticeView::Failure(ErrorClass::Validation, "unexpected event"@), false)
    }

    /// The file in work is done: the next one is sent, or the run ends well.
    pub open spec fn file_done(self, notice: NoticeView) -> (SubmissionView, ReplyView) {
        if self.file + 1 < self.opt.files.len() {
            (
                SubmissionView { phase: Phase::Uploading, file: (self.file + 1) as usize, ..self },
                ReplyView { notice, action: ActionView::Upload { file: (self.file + 1) as usize } },
            )
        } else {
            self.stop(notice, true)
        }
    }

    /// The command that prints the uploaded file under the name `job`.
    pub open spec fn command(self, job: Seq<char>) -> Seq<char> {
        job_line(command_line(self.printer, self.opt.print_opts), job, FILE_NAME@)
    }

    /// The state after `event`, and the reply to it. `job` is the name the
    /// print job gets if the event leads to a print.
    pub open spec fn next(self, event: EventView, job: Seq<char>) -> (SubmissionView, ReplyView) {
        match self.phase {
            Phase::Start => match event {
                EventView::Begin => {
                    if self.opt.files.len() == 0 {
                        self.stop(
                            NoticeView::Failure(ErrorClass::Validation, "no files specified"@),
                            false,
                        )
                    } else {
                        match self.opt.printer {
                            Some(p) => self.settle_printer(p),
                            None => (
                                SubmissionView { phase: Phase::ChoosingPrinter, ..self },
                                ReplyView {
                                    notice: NoticeView::Nothing,
                                    action: ActionView::AskPrinter,
                                },
                            ),
                        }
                    }
                },
                _ => self.misfit(),
            },
            Phase::ChoosingPrinter => match event {
                EventView::Line(line) => self.settle_printer(line),
                EventView::NoLine => self.stop(
                    NoticeView::Failure(ErrorClass::Validation, "no printer specified"@),
                    false,
                ),
                _ => self.misfit(),
            },
            Phase::Connecting => match event {
                EventView::Done => (
                    SubmissionView {
                        phase: Phase::AskingUser,
                        session: after(self.session, Operation::Connect),
                        ..self
                    },
                    ReplyView { notice: NoticeView::Nothing, action: ActionView::AskUser },
                ),
                EventView::Failed(text) => self.fall_back(ErrorClass::Transport, text),
                _ => self.misfit(),
            },
            Phase::AskingUser => match event {
                EventView::Line(user) => (
                    SubmissionView { phase: Phase::AskingPassword, user, ..self },
                    ReplyView { notice: NoticeView::Nothing, action: ActionView::AskPassword },
                ),
                EventView::NoLine => self.stop(
                    NoticeView::Failure(ErrorClass::Validation, "no username specified"@),
                    false,
                ),
                _ => self.misfit(),
            },
            Phase::AskingPassword => match event {
                EventView::Line(password) => (
                    SubmissionView { phase: Phase::Authenticating, ..self },
                    ReplyView {
                        notice: NoticeView::Nothing,
                        action: ActionView::Authenticate { user: self.user, password },
                    },
                ),
                EventView::NoLine => self.stop(
                    NoticeView::Failure(ErrorClass::Validation, "no password specified"@),
                    false,
                ),
                _ => self.misfit(),
            },
            Phase::Authenticating => match event {
                EventView::Done => (
                    SubmissionView {
                        phase: Phase::Uploading,
                        file: 0,
                        session: after(self.session, Operation::Authenticate),
                        ..self
                    },
                    ReplyView {
                        notice: NoticeView::Nothing,
                        action: ActionView::Upload { file: 0 },
                    },
                ),
                EventView::Failed(text) => self.fall_back(ErrorClass::Authentication, text),
                _ => self.misfit(),
            },
            Phase::Uploading => match event {
                EventView::Done => (
                    SubmissionView { phase: Phase::Printing, ..self },
                    ReplyView {
                        notice: NoticeView::Nothing,
                        action: if self.opt.debug {
                            ActionView::Show { command: self.command(job) }
                        } else {
                            ActionView::Execute { command: self.command(job) }
                        },
                    },
                ),
                EventView::Failed(text) => self.give_up(text),
                _ => self.misfit(),
            },
            Phase::Printing => match event {
                EventView::Exit(status) => {
                    if self.opt.debug {
                        self.misfit()
                    } else if status == 0 {
                        self.file_done(NoticeView::Printed { file: self.file })
                    } else {
                        self.file_done(NoticeView::Status { file: self.file, status })
                    }
                },
                EventView::Done => {
                    if self.opt.debug {
                        self.file_done(NoticeView::Printed { file: self.file })
                    } else {
                        self.misfit()
                    }
                },
                EventView::Failed(text) => self.give_up(text),
                _ => self.misfit(),
            },
            Phase::Confirming => match event {
                EventView::Line(answer) => {
                    if says_yes(answer) {
                        self.connect_to((self.host + 1) as usize)
                    } else {
                        self.stop(NoticeView::Nothing, false)
                    }
                },
                EventView::NoLine => self.stop(NoticeView::Nothing, false),
                _ => self.misfit(),
            },
            Phase::Finished => (
                self,
                ReplyView {
                    notice: NoticeView::Nothing,
                    action: ActionView::Stop { success: self.success },
                },
            ),
        }
    }
}

/// A submission on its way.
#[derive(Debug)]
pub struct Submission {
    opt: Opt,
    hosts: Vec<String>,
    phase: Phase,
    host: usize,
    file: usize,
    printer: String,
    user: String,
    session: TransferSession,
    success: bool,
}

impl View for Submission {
    type V = SubmissionView;

    closed spec fn view(&self) -> SubmissionView {
        SubmissionView {
            opt: self.opt@,
            hosts: self.hosts.deep_view(),
            phase: self.phase,
            host: self.host,
            file: self.file,
            printer: self.printer@,
            user: self.user@,
            session: self.session@,
            success: self.success,
        }
    }
}

/// Puts the question that offers `host` as the next one to try.
pub fn retry_question(host: &str) -> (q: String)
    ensures
        q@ == question_for(host@),
{
    let mut q = String::new();
    q.append("try again with \"");
    q.append(host);
    q.append("\"? (y/n) ");
    q
}

/// Tells whether `answer` accepts the offer of another host.
pub fn accepts_retry(answer: &str) -> (yes: bool)
    ensures
        yes == says_yes(answer@),
{
    let v = chars_of(answer);
    let (lo, hi) = trim_bounds(&v);
    if hi - lo == 1 && v[lo] == 'y' {
        assert(v@.subrange(lo as int, hi as int) =~= seq!['y']);
        true
    } else {
        assert(trim(v@) != seq!['y']) by {
            if trim(v@) == seq!['y'] {
                assert(v@.subrange(lo as int, hi as int).len() == 1);
                assert(v@.subrange(lo as int, hi as int)[0] == 'y');
            }
        }
        false
    }
}

impl Submission {
    #[verifier::type_invariant]
    spec fn inv(self) -> bool {
        self@.wf()
    }

    /// A submission that has not begun: `opt` says what to print and how,
    /// `hosts` lists the addresses to try, the first one first.
    pub fn new(opt: Opt, hosts: Vec<String>) -> (s: Submission)
        ensures
            s@.opt == opt@,
            s@.hosts == hosts.deep_view(),
            s@.phase == Phase::Start,
            s@.session == SessionState::Disconnected,
            s@.wf(),
    {
        Submission {
            opt,
            hosts,
            phase: Phase::Start,
            host: 0,
            file: 0,
            printer: String::new(),
            user: String::new(),
            session: TransferSession::new(),
            success: false,
        }
    }

    /// What the submission is waiting for.
    pub fn phase(&self) -> (p: Phase)
        ensures
            p == self@.phase,
            self@.wf(),
    {
        proof {
            use_type_invariant(self);
        }
        self.phase
    }

    /// Tells whether the run is over.
    pub fn is_finished(&self) -> (b: bool)
        ensures
            b == (self@.phase == Phase::Finished),
    {
        self.phase == Phase::Finished
    }

    /// Tells whether a transport is held at present.
    pub fn holds_session(&self) -> (b: bool)
        ensures
            b == holds_transport(self@.session),
    {
        self.session.is_open()
    }

    fn stop(self, notice: Notice, success: bool) -> (r: (Submission, Reply))
        ensures
            r.0@ == self@.stop(notice@, success).0,
            r.1@ == self@.stop(notice@, success).1,
    {
        let mut session = self.session;
        session.close();
        (
            Submission { phase: Phase::Finished, session, success, ..self },
            Reply { notice, action: Action::Stop { success } },
        )
    }

    fn connect_to(self, target: usize) -> (r: (Submission, Reply))
        requires
            self@.opt.files.len() > 0,
        ensures
            r.0@ == self@.connect_to(target).0,
            r.1@ == self@.connect_to(target).1,
    {
        if target < self.hosts.len() {
            let address: String = self.hosts[target].clone();
            (
                Submission {
                    phase: Phase::Connecting,
                    host: target,
                    session: TransferSession::new(),
                    ..self
                },
                Reply { notice: Notice::Nothing, action: Action::Connect { host: address } },
            )
        } else {
            self.stop(Notice::Nothing, false)
        }
    }

    fn settle_printer(self, name: String) -> (r: (Submission, Reply))
        requires
            self@.opt.files.len() > 0,
            self@.session == SessionState::Disconnected,
        ensures
            r.0@ == self@.settle_printer(name@).0,
            r.1@ == self@.settle_printer(name@).1,
    {
        if name.as_str().is_empty() {
            self.stop(Notice::Failure(Error::user("no printer specified")), false)
        } else {
            let named = Submission { phase: Phase::Start, printer: name, ..self };
            named.connect_to(0)
        }
    }

    fn fall_back(self, op: Operation, text: &str) -> (r: (Submission, Reply))
        requires
            self@.phase == Phase::Connecting && op == Operation::Connect || self@.phase
                == Phase::Authenticating && op == Operation::Authenticate,
        ensures
            r.0@ == self@.fall_back(crate::session::failure_class(op), text@).0,
            r.1@ == self@.fall_back(crate::session::failure_class(op), text@).1,
    {
        proof {
            use_type_invariant(&self);
        }
        let known: usize = self.hosts.len();
        let mut session = self.session;
        let failure: Error = session.fail(op, text);
        if self.host + 1 < known {
            let question: String = retry_question(self.hosts[self.host + 1].as_str());
            (
                Submission { phase: Phase::Confirming, session, ..self },
                Reply { notice: Notice::Failure(failure), action: Action::Confirm { question } },
            )
        } else {
            let failed = Submission { phase: Phase::Finished, session, ..self };
            failed.stop(Notice::Failure(failure), false)
        }
    }

    fn give_up(self, op: Operation, text: &str) -> (r: (Submission, Reply))
        requires
            self@.phase == Phase::Uploading && op == Operation::Upload || self@.phase
                == Phase::Printing && op == Operation::Execute,
        ensures
            r.0@ == self@.give_up(text@).0,
            r.1@ == self@.give_up(text@).1,
    {
        proof {
            use_type_invariant(&self);
        }
        let mut session = self.session;
        let failure: Error = session.fail(op, text);
        let failed = Submission { phase: Phase::Finished, session, ..self };
        failed.stop(Notice::Failure(failure), false)
    }

    fn misfit(self) -> (r: (Submission, Reply))
        ensures
            r.0@ == self@.misfit().0,
            r.1@ == self@.misfit().1,
    {
        self.stop(Notice::Failure(Error::user("unexpected event")), false)
    }

    fn file_done(self, notice: Notice) -> (r: (Submission, Reply))
        requires
            self@.phase == Phase::Printing,
        ensures
            r.0@ == self@.file_done(notice@).0,
            r.1@ == self@.file_done(notice@).1,
    {
        proof {
            use_type_invariant(&self);
        }
        let count: usize = self.opt.file_count();
        if self.file + 1 < count {
            let file: usize = self.file + 1;
            (
                Submission { phase: Phase::Uploading, file, ..self },
                Reply { notice, action: Action::Upload { file } },
            )
        } else {
            self.stop(notice, true)
        }
    }

    /// Takes in what came of the last action and says what to do next.
    /// `job` is the name the print job gets if a print follows.
    pub fn advance(self, event: Event, job: &str) -> (r: (Submission, Reply))
        ensures
            r.0@ == self@.next(event@, job@).0,
            r.1@ == self@.next(event@, job@).1,
            r.0@.wf(),
    {
        proof {
            use_type_invariant(&self);
        }
        let r = match self.phase {
            Phase::Start => match event {
                Event::Begin => {
                    if self.opt.file_count() == 0 {
                        self.stop(Notice::Failure(Error::user("no files specified")), false)
                    } else {
                        let given: Option<String> = match self.opt.printer() {
                            Some(p) => Some(p.to_owned()),
                            None => None,
                        };
                        match given {
                            Some(p) => self.settle_printer(p),
                            None => (
                                Submission { phase: Phase::ChoosingPrinter, ..self },
                                Reply { notice: Notice::Nothing, action: Action::AskPrinter },
                            ),
                        }
                    }
                },
                _ => self.misfit(),
            },
            Phase::ChoosingPrinter => match event {
                Event::Line(line) => self.settle_printer(line),
                Event::NoLine => self.stop(
                    Notice::Failure(Error::user("no printer specified")),
                    false,
                ),
                _ => self.misfit(),
            },
            Phase::Connecting => match event {
                Event::Done => {
                    let mut session = self.session;
                    session.succeed(Operation::Connect);
                    (
                        Submission { phase: Phase::AskingUser, session, ..self },
                        Reply { notice: Notice::Nothing, action: Action::AskUser },
                    )
                },
                Event::Failed(text) => self.fall_back(Operation::Connect, text.as_str()),
                _ => self.misfit(),
            },
            Phase::AskingUser => match event {
                Event::Line(user) => (
                    Submission { phase: Phase::AskingPassword, user, ..self },
                    Reply { notice: Notice::Nothing, action: Action::AskPassword },
                ),
                Event::NoLine => self.stop(
                    Notice::Failure(Error::user("no username specified")),
                    false,
                ),
                _ => self.misfit(),
            },
            Phase::AskingPassword => match event {
                Event::Line(password) => {
                    let user: String = self.user.clone();
                    (
                        Submission { phase: Phase::Authenticating, ..self },
                        Reply {
                            notice: Notice::Nothing,
                            action: Action::Authenticate { user, password },
                        },
                    )
                },
                Event::NoLine => self.stop(
                    Notice::Failure(Error::user("no password specified")),
                    false,
                ),
                _ => self.misfit(),
            },
            Phase::Authenticating => match event {
                Event::Done => {
                    let mut session = self.session;
                    session.succeed(Operation::Authenticate);
                    (
                        Submission { phase: Phase::Uploading, file: 0, session, ..self },
                        Reply { notice: Notice::Nothing, action: Action::Upload { file: 0 } },
                    )
                },
                Event::Failed(text) => self.fall_back(Operation::Authenticate, text.as_str()),
                _ => self.misfit(),
            },
            Phase::Uploading => match event {
                Event::Done => {
                    let base: String = build_cmd(self.printer.as_str(), self.opt.print_opts());
                    let command: String = job_cmd(base.as_str(), job, FILE_NAME);
                    let action = if self.opt.debug() {
                        Action::Show { command }
                    } else {
                        Action::Execute { command }
                    };
                    let mut session = self.session;
                    session.succeed(Operation::Upload);
                    (
                        Submission { phase: Phase::Printing, session, ..self },
                        Reply { notice: Notice::Nothing, action },
                    )
                },
                Event::Failed(text) => self.give_up(Operation::Upload, text.as_str()),
                _ => self.misfit(),
            },
            Phase::Printing => match event {
                Event::Exit(status) => {
                    let file: usize = self.file;
                    if self.opt.debug() {
                        self.misfit()
                    } else if status == 0 {
                        self.file_done(Notice::Printed { file })
                    } else {
                        self.file_done(Notice::Status { file, status })
                    }
                },
                Event::Done => {
                    let file: usize = self.file;
                    if self.opt.debug() {
                        self.file_done(Notice::Printed { file })
                    } else {
                        self.misfit()
                    }
                },
                Event::Failed(text) => self.give_up(Operation::Execute, text.as_str()),
                _ => self.misfit(),
            },
            Phase::Confirming => match event {
                Event::Line(answer) => {
                    if accepts_retry(answer.as_str()) {
                        assert(self.host + 1 < self.hosts.len());
                        let target: usize = self.host + 1;
                        self.connect_to(target)
                    } else {
                        self.stop(Notice::Nothing, false)
                    }
                },
                Event::NoLine => self.stop(Notice::Nothing, false),
                _ => self.misfit(),
            },
            Phase::Finished => {
                let success: bool = self.success;
                (self, Reply { notice: Notice::Nothing, action: Action::Stop { success } })
            },
        };
        proof {
            use_type_invariant(&r.0);
        }
        r
    }

    /// Takes in what came of the last action and says what to do next. Where
    /// a print follows, the job gets a name made up on the spot.
    pub fn step(self, event: Event) -> (r: (Submission, Reply))
        ensures
            exists|job: Seq<char>|
                job.len() > 0 && plain(job) && r.0@ == (#[trigger] self@.next(event@, job)).0
                    && r.1@ == self@.next(event@, job).1,
            r.0@.wf(),
    {
        let sent: bool = self.phase == Phase::Uploading && match event {
            Event::Done => true,
            _ => false,
        };
        if sent {
            let job: String = generate();
            self.advance(event, job.as_str())
        } else {
            let ghost witness = job_name(0, seq![0usize, 0usize, 0usize, 0usize]);
            proof {
                crate::bad_names::lemma_job_name_plain(0, seq![0usize, 0usize, 0usize, 0usize]);
                assert(self@.next(event@, witness) == self@.next(event@, ""@));
            }
            self.advance(event, "")
        }
    }
}

/// A step leaves the parts of a submission fitting together: no step opens
/// a second session, sends a file before the host has accepted the
/// credentials, or leaves a transport held after the end.
pub proof fn lemma_next_keeps_wf(s: SubmissionView, event: EventView, job: Seq<char>)
    requires
        s.wf(),
    ensures
        s.next(event, job).0.wf(),
{
}

/// Without files the run ends at once with a validation failure: nothing is
/// asked of the user and no host is contacted.
pub proof fn lemma_no_files_no_connection(s: SubmissionView, job: Seq<char>)
    requires
        s.phase == Phase::Start,
        s.opt.files.len() == 0,
    ensures
        s.next(EventView::Begin, job).0.phase == Phase::Finished,
        s.next(EventView::Begin, job).1 == (ReplyView {
            notice: NoticeView::Failure(ErrorClass::Validation, "no files specified"@),
            action: ActionView::Stop { success: false },
        }),
{
}

/// A run that is over stays over: whatever is reported to it, it changes
/// nothing and asks for nothing but to stop.
pub proof fn lemma_finished_is_final(s: SubmissionView, event: EventView, job: Seq<char>)
    requires
        s.phase == Phase::Finished,
    ensures
        s.next(event, job).0 == s,
        s.next(event, job).1.action == (ActionView::Stop { success: s.success }),
{
}

/// Another host is offered only after connecting or logging in has failed,
/// and only where another host is left; the failure reported with the offer
/// is of the transport or the authentication class.
pub proof fn lemma_fallback_only_for_connection_trouble(
    s: SubmissionView,
    event: EventView,
    job: Seq<char>,
)
    requires
        s.wf(),
        s.next(event, job).1.action is Confirm,
    ensures
        s.phase == Phase::Connecting || s.phase == Phase::Authenticating,
        event is Failed,
        s.host + 1 < s.hosts.len(),
        s.next(event, job).1.notice == NoticeView::Failure(
            if s.phase == Phase::Connecting {
                ErrorClass::Transport
            } else {
                ErrorClass::Authentication
            },
            event->Failed_0,
        ),
        s.next(event, job).0.session == SessionState::Failed,
{
}

/// A file is sent, and a command run or shown, only over a session that the
/// host has accepted the credentials of.
pub proof fn lemma_work_needs_login(s: SubmissionView, event: EventView, job: Seq<char>)
    requires
        s.wf(),
        ({
            let action = s.next(event, job).1.action;
            action is Upload || action is Execute || action is Show
        }),
    ensures
        s.next(event, job).0.session == SessionState::Authenticated,
        s.next(event, job).0.host < s.hosts.len(),
        s.next(event, job).0.file < s.opt.files.len(),
{
}

/// A failure while a file is sent or printed ends the run: the files that
/// are left are not touched and no other host is offered.
pub proof fn lemma_file_failure_ends_the_run(s: SubmissionView, text: Seq<char>, job: Seq<char>)
    requires
        s.phase == Phase::Uploading || s.phase == Phase::Printing,
    ensures
        s.next(EventView::Failed(text), job).0.phase == Phase::Finished,
        s.next(EventView::Failed(text), job).1 == (ReplyView {
            notice: NoticeView::Failure(ErrorClass::Io, text),
            action: ActionView::Stop { success: false },
        }),
{
}

} // verus!
