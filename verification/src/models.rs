//! The records that the service stores, answers with and receives.
use vstd::prelude::*;

verus! {

// ─── Auth ───────────────────────────────────────────────────────────────

/// The user on whose behalf a request runs.
#[derive(Debug)]
pub struct AuthUser {
    pub uid: i64,
    pub user: String,
    pub is_admin: bool,
    pub groups: Vec<String>,
}

pub struct AuthUserView {
    pub uid: i64,
    pub user: Seq<char>,
    pub is_admin: bool,
    pub groups: Seq<Seq<char>>,
}

impl View for AuthUser {
    type V = AuthUserView;

    open spec fn view(&self) -> AuthUserView {
        AuthUserView {
            uid: self.uid,
            user: self.user@,
            is_admin: self.is_admin,
            groups: self.groups.deep_view(),
        }
    }
}

/// The user record every signed-in identity gets: an administrator in the group `Users`.
pub open spec fn admin_user_view(name: Seq<char>, uid: i64) -> AuthUserView {
    AuthUserView { uid, user: name, is_admin: true, groups: seq!["Users"@] }
}

impl AuthUser {
    /// An administrator in the group `Users`, the only kind of user the service hands out.
    pub fn admin(name: String, uid: i64) -> (r: AuthUser)
        ensures
            r@ == admin_user_view(name@, uid),
            r.uid == uid && r.user@ == name@ && r.is_admin && r.groups@.len() == 1 && r.groups@[0]@
                == "Users"@,
    {
        let mut groups: Vec<String> = Vec::new();
        groups.push(String::from_str("Users"));
        assert(groups.deep_view() =~= seq!["Users"@]);
        AuthUser { uid, user: name, is_admin: true, groups }
    }

    /// A copy with the same contents.
    pub fn copied(&self) -> (r: AuthUser)
        ensures
            r@ == self@,
    {
        let mut groups: Vec<String> = Vec::new();
        let mut i: usize = 0;
        while i < self.groups.len()
            invariant
                i <= self.groups@.len(),
                groups.deep_view() == self.groups.deep_view().take(i as int),
            decreases self.groups.len() - i,
        {
            let g = self.groups[i].clone();
            let ghost before = groups.deep_view();
            groups.push(g);
            assert(groups.deep_view() =~= before.push(g@));
            assert(self.groups.deep_view().take(i + 1) =~= self.groups.deep_view().take(
                i as int,
            ).push(self.groups[i as int]@));
            i = i + 1;
        }
        assert(self.groups.deep_view().take(self.groups@.len() as int) =~= self.groups.deep_view());
        AuthUser { uid: self.uid, user: self.user.clone(), is_admin: self.is_admin, groups }
    }
}

/// Which screen the front end shows first: `setup`, `login` or `public`.
#[derive(Debug)]
pub struct AppPasswordStatus {
    pub status: String,
}

/// The first-run request: a password, or `None` to run without one.
#[derive(Debug)]
pub struct SetPasswordRequest {
    pub password: Option<String>,
}

#[derive(Debug)]
pub struct LoginRequest {
    pub password: String,
}

#[derive(Debug)]
pub struct LoginResponse {
    pub token: String,
    pub user: AuthUser,
}

// ─── Sessions ───────────────────────────────────────────────────────────

/// A terminal's size in character cells.
#[derive(Debug, Clone, Copy, PartialEq, Eq, Structural)]
pub struct TermSize {
    pub cols: u32,
    pub rows: u32,
}

/// A session as the listing endpoints describe it.
#[derive(Debug)]
pub struct SessionInfo {
    pub session_id: String,
    pub name: String,
    pub owner_uid: i64,
    pub owner_user: String,
    pub session_type: String,
    pub status: String,
    pub created_at: String,
    pub last_activity: String,
    pub size: TermSize,
    pub cwd: String,
}

pub struct SessionInfoView {
    pub session_id: Seq<char>,
    pub name: Seq<char>,
    pub owner_uid: i64,
    pub owner_user: Seq<char>,
    pub session_type: Seq<char>,
    pub status: Seq<char>,
    pub created_at: Seq<char>,
    pub last_activity: Seq<char>,
    pub size: TermSize,
    pub cwd: Seq<char>,
}

impl View for SessionInfo {
    type V = SessionInfoView;

    open spec fn view(&self) -> SessionInfoView {
        SessionInfoView {
            session_id: self.session_id@,
            name: self.name@,
            owner_uid: self.owner_uid,
            owner_user: self.owner_user@,
            session_type: self.session_type@,
            status: self.status@,
            created_at: self.created_at@,
            last_activity: self.last_activity@,
            size: self.size,
            cwd: self.cwd@,
        }
    }
}

/// A terminal session: which tmux session backs it and whom it belongs to.
#[derive(Debug)]
pub struct TerminalSession {
    pub session_id: String,
    pub name: String,
    pub owner_uid: i64,
    pub owner_user: String,
    pub session_type: String,
    pub created_at: String,
    pub last_activity: String,
    pub size: TermSize,
    pub tmux_session_name: String,
    pub cwd: String,
}

pub struct TerminalSessionView {
    pub session_id: Seq<char>,
    pub name: Seq<char>,
    pub owner_uid: i64,
    pub owner_user: Seq<char>,
    pub session_type: Seq<char>,
    pub created_at: Seq<char>,
    pub last_activity: Seq<char>,
    pub size: TermSize,
    pub tmux_session_name: Seq<char>,
    pub cwd: Seq<char>,
}

impl View for TerminalSession {
    type V = TerminalSessionView;

    open spec fn view(&self) -> TerminalSessionView {
        TerminalSessionView {
            session_id: self.session_id@,
            name: self.name@,
            owner_uid: self.owner_uid,
            owner_user: self.owner_user@,
            session_type: self.session_type@,
            created_at: self.created_at@,
            last_activity: self.last_activity@,
            size: self.size,
            tmux_session_name: self.tmux_session_name@,
            cwd: self.cwd@,
        }
    }
}

impl TerminalSession {
    /// A copy with the same contents.
    pub fn copied(&self) -> (r: TerminalSession)
        ensures
            r@ == self@,
    {
        TerminalSession {
            session_id: self.session_id.clone(),
            name: self.name.clone(),
            owner_uid: self.owner_uid,
            owner_user: self.owner_user.clone(),
            session_type: self.session_type.clone(),
            created_at: self.created_at.clone(),
            last_activity: self.last_activity.clone(),
            size: self.size,
            tmux_session_name: self.tmux_session_name.clone(),
            cwd: self.cwd.clone(),
        }
    }
}

#[derive(Debug)]
pub struct CreateSessionRequest {
    pub session_type: String,
    pub cols: u32,
    pub rows: u32,
}

#[derive(Debug)]
pub struct UpdateSessionNameRequest {
    pub name: String,
}

// ─── Clipboard ──────────────────────────────────────────────────────────

/// One entry of a user's clipboard history: a text or the path of an image.
#[derive(Debug)]
pub struct ClipboardItem {
    pub id: String,
    pub kind: String,
    pub text: Option<String>,
    pub path: Option<String>,
    pub content_type: Option<String>,
    pub size: Option<i64>,
    pub created_at: i64,
}

pub struct ClipboardItemView {
    pub id: Seq<char>,
    pub kind: Seq<char>,
    pub text: Option<Seq<char>>,
    pub path: Option<Seq<char>>,
    pub content_type: Option<Seq<char>>,
    pub size: Option<i64>,
    pub created_at: i64,
}

/// The view of an optional string.
pub open spec fn opt_view(s: Option<String>) -> Option<Seq<char>> {
    match s {
        Some(x) => Some(x@),
        None => None,
    }
}

impl View for ClipboardItem {
    type V = ClipboardItemView;

    open spec fn view(&self) -> ClipboardItemView {
        ClipboardItemView {
            id: self.id@,
            kind: self.kind@,
            text: opt_view(self.text),
            path: opt_view(self.path),
            content_type: opt_view(self.content_type),
            size: self.size,
            created_at: self.created_at,
        }
    }
}

/// A request to record an item in the clipboard history.
#[derive(Debug)]
pub struct RecordClipboardRequest {
    pub kind: String,
    pub text: Option<String>,
    pub path: Option<String>,
    pub content_type: Option<String>,
    pub size: Option<i64>,
}

// ─── API Response ───────────────────────────────────────────────────────

/// The envelope of every JSON answer.
#[derive(Debug)]
pub struct ApiResponse<T> {
    pub success: bool,
    pub message: String,
    pub data: Option<T>,
}

impl<T> ApiResponse<T> {
    /// A successful answer carrying `data`.
    pub fn ok(data: T) -> (r: Self)
        ensures
            r.success,
            r.message@ == "ok"@,
            r.data == Some(data),
    {
        ApiResponse { success: true, message: String::from_str("ok"), data: Some(data) }
    }

    /// A failed answer with `message` and no data.
    pub fn failure(message: String) -> (r: Self)
        ensures
            !r.success,
            r.message@ == message@,
            r.data.is_none(),
    {
        ApiResponse { success: false, message, data: None }
    }
}

/// HTTP status codes that the service answers with.
pub const STATUS_BAD_REQUEST: u16 = 400;

pub const STATUS_UNAUTHORIZED: u16 = 401;

pub const STATUS_FORBIDDEN: u16 = 403;

pub const STATUS_NOT_FOUND: u16 = 404;

pub const STATUS_INTERNAL_SERVER_ERROR: u16 = 500;

/// A refused request: the message for the body and the HTTP status for the header.
#[derive(Debug)]
pub struct ApiError {
    pub success: bool,
    pub message: String,
    pub status: u16,
}

/// What a signed-in identity is: an administrator in the group `Users`, under the given
/// name and uid.
pub proof fn lemma_admin_user(name: Seq<char>, uid: i64)
    ensures
        admin_user_view(name, uid).uid == uid,
        admin_user_view(name, uid).user == name,
        admin_user_view(name, uid).is_admin,
        admin_user_view(name, uid).groups == seq!["Users"@],
{
}

/// A refused request is an unsuccessful answer with this status and message.
pub proof fn lemma_api_error(e: ApiError, status: u16, message: Seq<char>)
    requires
        is_api_error(e, status, message),
    ensures
        !e.success,
        e.status == status,
        e.message@ == message,
{
}

/// A refused request with this status and message.
pub open spec fn is_api_error(e: ApiError, status: u16, message: Seq<char>) -> bool {
    !e.success && e.status == status && e.message@ == message
}

impl ApiError {
    /// A bad request (400).
    pub fn new(msg: String) -> (r: ApiError)
        ensures
            is_api_error(r, STATUS_BAD_REQUEST, msg@),
        !r.success && r.status == 400 && r.message@ == msg@,
    {
        Self::with_status(STATUS_BAD_REQUEST, msg)
    }

    /// A refusal with the given HTTP status.
    pub fn with_status(status: u16, msg: String) -> (r: ApiError)
        ensures
            is_api_error(r, status, msg@),
        !r.success && r.status == status && r.message@ == msg@,
    {
        ApiError { success: false, message: msg, status }
    }

    /// A forbidden request (403).
    pub fn forbidden(msg: String) -> (r: ApiError)
        ensures
            is_api_error(r, STATUS_FORBIDDEN, msg@),
        !r.success && r.status == 403 && r.message@ == msg@,
    {
        Self::with_status(STATUS_FORBIDDEN, msg)
    }

    /// A request for something that does not exist (404).
    pub fn not_found(msg: String) -> (r: ApiError)
        ensures
            is_api_error(r, STATUS_NOT_FOUND, msg@),
        !r.success && r.status == 404 && r.message@ == msg@,
    {
        Self::with_status(STATUS_NOT_FOUND, msg)
    }

    /// A failure on the server's side (500).
    pub fn internal(msg: String) -> (r: ApiError)
        ensures
            is_api_error(r, STATUS_INTERNAL_SERVER_ERROR, msg@),
        !r.success && r.status == 500 && r.message@ == msg@,
    {
        Self::with_status(STATUS_INTERNAL_SERVER_ERROR, msg)
    }
}

// ─── WebSocket Messages ─────────────────────────────────────────────────

/// A message the browser sends over the terminal socket.
#[derive(Debug)]
pub enum TerminalMessage {
    Input { data: String },
    Paste { data: String },
    Resize { cols: u32, rows: u32 },
    ResumeSession { session_id: String },
    CloseTerminal,
    KeepAlive,
}

} // verus!
