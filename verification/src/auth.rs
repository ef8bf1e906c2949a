//! Who is asking: local accounts, identity detection, tokens and the application password.
use vstd::prelude::*;
use vstd::string::StringSliceAdditionalSpecFns;
use crate::models::{AuthUser, AuthUserView, admin_user_view, opt_view};
use crate::text::{
    split_char, parse_signed, lines, split_string, parse_i64, lines_of, has_suffix, first_index,
    lemma_first_index, lemma_first_index_is, str_eq, str_ends_with, signed_decimal, i64_to_decimal,
    concat_str, has_prefix, strip_all_prefix, str_starts_with, string_from_chars, chars_of,
    trim_start_matches, trim, trim_string, trim_start, trim_end, join_with, lemma_split_join,
    lemma_parse_round_trip, lemma_decimal_digits, decimal,
};
use crate::models::{
    ApiError, ApiResponse, AppPasswordStatus, is_api_error, STATUS_BAD_REQUEST,
};
use crate::fresh::{is_lower_hex, is_uuid_text, unix_seconds, uuid_text};
use crate::config::AppConfig;

verus! {

// ─── Local accounts (/etc/passwd) ───────────────────────────────────────

/// One account of the passwd database.
#[derive(Debug)]
pub struct LocalUser {
    pub name: String,
    pub uid: i64,
    pub home: String,
    pub shell: String,
}

pub struct LocalUserView {
    pub name: Seq<char>,
    pub uid: i64,
    pub home: Seq<char>,
    pub shell: Seq<char>,
}

impl View for LocalUser {
    type V = LocalUserView;

    open spec fn view(&self) -> LocalUserView {
        LocalUserView { name: self.name@, uid: self.uid, home: self.home@, shell: self.shell@ }
    }
}

impl LocalUser {
    /// A copy with the same contents.
    pub fn copied(&self) -> (r: LocalUser)
        ensures
            r@ == self@,
    {
        LocalUser {
            name: self.name.clone(),
            uid: self.uid,
            home: self.home.clone(),
            shell: self.shell.clone(),
        }
    }
}

/// The account a passwd line describes: at least seven `:`-separated fields, the third
/// an `i64`; the first is the name, the sixth the home directory, the seventh the shell.
pub open spec fn passwd_entry(line: Seq<char>) -> Option<LocalUserView> {
    let f = split_char(line, ':');
    if f.len() >= 7 {
        match parse_signed(f[2]) {
            Some(u) => if i64::MIN <= u <= i64::MAX {
                Some(LocalUserView { name: f[0], uid: u as i64, home: f[5], shell: f[6] })
            } else {
                None
            },
            None => None,
        }
    } else {
        None
    }
}

/// A passwd line written from an account's seven fields reads back as that account: its
/// name, uid, home directory and shell, whatever the password, group and comment fields
/// hold.
pub proof fn lemma_passwd_line(
    name: Seq<char>,
    password: Seq<char>,
    uid: i64,
    gid: Seq<char>,
    gecos: Seq<char>,
    home: Seq<char>,
    shell: Seq<char>,
)
    requires
        !name.contains(':'),
        !password.contains(':'),
        !gid.contains(':'),
        !gecos.contains(':'),
        !home.contains(':'),
        !shell.contains(':'),
    ensures
        passwd_entry(
            join_with(
                seq![name, password, signed_decimal(uid as int), gid, gecos, home, shell],
                ':',
            ),
        ) == Some(LocalUserView { name, uid, home, shell }),
{
    let u = signed_decimal(uid as int);
    let m: nat = if uid < 0 { (-uid) as nat } else { uid as nat };
    lemma_decimal_digits(m);
    lemma_parse_round_trip(m, uid as int);
    assert(!u.contains(':')) by {
        if u.contains(':') {
            let j = choose|j: int| 0 <= j < u.len() && u[j] == ':';
            if uid < 0 {
                if j > 0 {
                    assert(u[j] == decimal(m)[j - 1]);
                }
            } else {
                assert(u[j] == decimal(m)[j]);
            }
        }
    }
    let parts = seq![name, password, u, gid, gecos, home, shell];
    assert forall|i: int| 0 <= i < parts.len() implies !(#[trigger] parts[i]).contains(':') by {}
    lemma_split_join(parts, ':');
}

/// The accounts of the lines that describe one, in order.
pub open spec fn passwd_entries(ls: Seq<Seq<char>>) -> Seq<LocalUserView>
    decreases ls.len(),
{
    if ls.len() == 0 {
        seq![]
    } else {
        let prev = passwd_entries(ls.drop_last());
        match passwd_entry(ls.last()) {
            Some(e) => prev.push(e),
            None => prev,
        }
    }
}

/// The accounts of a passwd file, in file order; lines that describe none are skipped.
pub open spec fn passwd_users_spec(contents: Seq<char>) -> Seq<LocalUserView> {
    passwd_entries(lines(contents))
}

/// The views of a list of accounts.
pub open spec fn users_view(users: Seq<LocalUser>) -> Seq<LocalUserView> {
    users.map_values(|u: LocalUser| u@)
}

/// The account that one passwd line describes, if any.
pub fn parse_passwd_line(line: &str) -> (r: Option<LocalUser>)
    ensures
        match r {
            Some(u) => passwd_entry(line@) == Some(u@),
            None => passwd_entry(line@).is_none(),
        },
{
    let fields = split_string(line, ':');
    if fields.len() < 7 {
        return None;
    }
    let uid = parse_i64(fields[2].as_str());
    match uid {
        Some(uid) => Some(
            LocalUser {
                name: fields[0].clone(),
                uid,
                home: fields[5].clone(),
                shell: fields[6].clone(),
            },
        ),
        None => None,
    }
}

/// The accounts of a passwd file, in file order (the file's contents are read by the caller).
pub fn passwd_users(contents: &str) -> (r: Vec<LocalUser>)
    ensures
        users_view(r@) == passwd_users_spec(contents@),
{
    let ls = lines_of(contents);
    let mut out: Vec<LocalUser> = Vec::new();
    let mut i: usize = 0;
    while i < ls.len()
        invariant
            i <= ls@.len(),
            ls.deep_view() == lines(contents@),
            users_view(out@) == passwd_entries(ls.deep_view().take(i as int)),
        decreases ls.len() - i,
    {
        let ghost before = out@;
        let entry = parse_passwd_line(ls[i].as_str());
        assert(ls.deep_view().take(i + 1).drop_last() =~= ls.deep_view().take(i as int));
        assert(ls.deep_view().take(i + 1).last() == ls[i as int]@);
        match entry {
            Some(u) => {
                out.push(u);
                assert(users_view(out@) =~= users_view(before).push(out@.last()@));
            },
            None => {},
        }
        i = i + 1;
    }
    assert(ls.deep_view().take(ls@.len() as int) =~= ls.deep_view());
    out
}


/// Whether an account may run a terminal: an ordinary user (uid at least 1000, not
/// `nobody`), a shell that allows logins, and a home directory that exists.
pub open spec fn is_login_user_spec(u: LocalUserView, home_is_dir: bool) -> bool {
    &&& u.uid >= 1000
    &&& u.name != "nobody"@
    &&& !has_suffix(u.shell, "/nologin"@)
    &&& !has_suffix(u.shell, "/false"@)
    &&& !has_suffix(u.shell, "/sync"@)
    &&& home_is_dir
}

/// Whether an account may run a terminal; `home_is_dir` says whether its home directory
/// exists as a directory.
pub fn is_login_user(user: &LocalUser, home_is_dir: bool) -> (r: bool)
    ensures
        r == is_login_user_spec(user@, home_is_dir),
        r ==> user.uid >= 1000 && home_is_dir && user.name@ != "nobody"@,
        r ==> !has_suffix(user.shell@, "/nologin"@) && !has_suffix(user.shell@, "/false"@)
            && !has_suffix(user.shell@, "/sync"@),
        (user.uid >= 1000 && home_is_dir && user.name@ != "nobody"@ && !has_suffix(
            user.shell@,
            "/nologin"@,
        ) && !has_suffix(user.shell@, "/false"@) && !has_suffix(user.shell@, "/sync"@)) ==> r,
{
    user.uid >= 1000 && !str_eq(user.name.as_str(), "nobody") && !str_ends_with(
        user.shell.as_str(),
        "/nologin",
    ) && !str_ends_with(user.shell.as_str(), "/false") && !str_ends_with(
        user.shell.as_str(),
        "/sync",
    ) && home_is_dir
}

/// The account has this name.
pub open spec fn has_name(name: Seq<char>) -> spec_fn(LocalUserView) -> bool {
    |u: LocalUserView| u.name == name
}

/// The account has this uid.
pub open spec fn has_uid(uid: i64) -> spec_fn(LocalUserView) -> bool {
    |u: LocalUserView| u.uid == uid
}

/// The index of the first account with this name, or the number of accounts.
pub open spec fn index_by_name(users: Seq<LocalUserView>, name: Seq<char>) -> int {
    first_index(users, has_name(name))
}

/// The index of the first account with this uid, or the number of accounts.
pub open spec fn index_by_uid(users: Seq<LocalUserView>, uid: i64) -> int {
    first_index(users, has_uid(uid))
}

fn find_by_name(users: &Vec<LocalUser>, name: &str) -> (r: usize)
    ensures
        r == index_by_name(users_view(users@), name@),
        r <= users@.len(),
{
    let ghost us = users_view(users@);
    let mut i: usize = 0;
    while i < users.len()
        invariant
            i <= users@.len(),
            us == users_view(users@),
            forall|j: int| 0 <= j < i ==> !has_name(name@)(#[trigger] us[j]),
        decreases users.len() - i,
    {
        if str_eq(users[i].name.as_str(), name) {
            proof {
                lemma_first_index_is(us, has_name(name@), i as int);
            }
            return i;
        }
        i = i + 1;
    }
    proof {
        lemma_first_index_is(us, has_name(name@), i as int);
    }
    i
}

fn find_by_uid(users: &Vec<LocalUser>, uid: i64) -> (r: usize)
    ensures
        r == index_by_uid(users_view(users@), uid),
        r <= users@.len(),
{
    let ghost us = users_view(users@);
    let mut i: usize = 0;
    while i < users.len()
        invariant
            i <= users@.len(),
            us == users_view(users@),
            forall|j: int| 0 <= j < i ==> !has_uid(uid)(#[trigger] us[j]),
        decreases users.len() - i,
    {
        if users[i].uid == uid {
            proof {
                lemma_first_index_is(us, has_uid(uid), i as int);
            }
            return i;
        }
        i = i + 1;
    }
    proof {
        lemma_first_index_is(us, has_uid(uid), i as int);
    }
    i
}

/// The view of an optional account.
pub open spec fn opt_user_view(u: Option<LocalUser>) -> Option<LocalUserView> {
    match u {
        Some(x) => Some(x@),
        None => None,
    }
}

/// The first account in `users` at `index`, or `None` past the end.
pub open spec fn user_at(users: Seq<LocalUserView>, index: int) -> Option<LocalUserView> {
    if 0 <= index < users.len() {
        Some(users[index])
    } else {
        None
    }
}

/// The first account with this name.
pub fn user_from_name(users: &Vec<LocalUser>, name: &str) -> (r: Option<LocalUser>)
    ensures
        opt_user_view(r) == user_at(users_view(users@), index_by_name(users_view(users@), name@)),
        r matches Some(u) ==> u@.name == name@ && exists|i: int|
            0 <= i < users@.len() && users@[i]@ == u@ && forall|j: int|
                0 <= j < i ==> (#[trigger] users@[j]).name@ != name@,
        r is None ==> forall|i: int| 0 <= i < users@.len() ==> (#[trigger] users@[i]).name@ != name@,
{
    proof {
        let us = users_view(users@);
        lemma_first_index(us, has_name(name@));
        let k = index_by_name(us, name@);
        assert forall|j: int| 0 <= j < k implies (#[trigger] users@[j]).name@ != name@ by {
            assert(!has_name(name@)(us[j]));
        }
        if k < users@.len() {
            assert(has_name(name@)(us[k]));
            assert(users@[k]@ == us[k]);
        }
    }
    let i = find_by_name(users, name);
    if i < users.len() {
        Some(users[i].copied())
    } else {
        None
    }
}

/// The first account with this uid.
pub fn user_from_uid(users: &Vec<LocalUser>, uid: i64) -> (r: Option<LocalUser>)
    ensures
        opt_user_view(r) == user_at(users_view(users@), index_by_uid(users_view(users@), uid)),
        r matches Some(u) ==> u@.uid == uid && exists|i: int|
            0 <= i < users@.len() && users@[i]@ == u@ && forall|j: int|
                0 <= j < i ==> (#[trigger] users@[j]).uid != uid,
        r is None ==> forall|i: int| 0 <= i < users@.len() ==> (#[trigger] users@[i]).uid != uid,
{
    proof {
        let us = users_view(users@);
        lemma_first_index(us, has_uid(uid));
        let k = index_by_uid(us, uid);
        assert forall|j: int| 0 <= j < k implies (#[trigger] users@[j]).uid != uid by {
            assert(!has_uid(uid)(us[j]));
        }
        if k < users@.len() {
            assert(has_uid(uid)(us[k]));
            assert(users@[k]@ == us[k]);
        }
    }
    let i = find_by_uid(users, uid);
    if i < users.len() {
        Some(users[i].copied())
    } else {
        None
    }
}

/// The name of the first account with this uid.
pub fn username_from_uid(users: &Vec<LocalUser>, uid: i64) -> (r: Option<String>)
    ensures
        opt_view(r) == (match user_at(users_view(users@), index_by_uid(users_view(users@), uid)) {
            Some(u) => Some(u.name),
            None => None,
        }),
{
    match user_from_uid(users, uid) {
        Some(u) => Some(u.name),
        None => None,
    }
}

/// The home directory of the first account with this name, unless it is empty.
pub open spec fn home_for_user_spec(users: Seq<LocalUserView>, username: Seq<char>) -> Option<
    Seq<char>,
> {
    match user_at(users, index_by_name(users, username)) {
        Some(u) => if u.home.len() == 0 {
            None
        } else {
            Some(u.home)
        },
        None => None,
    }
}

/// The home directory of the account with this name, unless it is empty.
pub fn home_for_user(users: &Vec<LocalUser>, username: &str) -> (r: Option<String>)
    ensures
        opt_view(r) == home_for_user_spec(users_view(users@), username@),
        r matches Some(h) ==> h@.len() > 0 && exists|i: int|
            0 <= i < users@.len() && (#[trigger] users@[i]).name@ == username@ && users@[i].home@
                == h@ && forall|j: int| 0 <= j < i ==> (#[trigger] users@[j]).name@ != username@,
        (forall|i: int| 0 <= i < users@.len() ==> (#[trigger] users@[i]).name@ != username@) ==> r
            is None,
{
    proof {
        let us = users_view(users@);
        lemma_first_index(us, has_name(username@));
        let k = index_by_name(us, username@);
        assert forall|j: int| 0 <= j < k implies (#[trigger] users@[j]).name@ != username@ by {
            assert(!has_name(username@)(us[j]));
        }
        if k < users@.len() {
            assert(has_name(username@)(us[k]));
            assert(users@[k]@ == us[k]);
        }
    }
    match user_from_name(users, username) {
        Some(u) => {
            if u.home.as_str().is_empty() {
                None
            } else {
                Some(u.home)
            }
        },
        None => None,
    }
}

/// Account `i` may run a terminal.
pub open spec fn login_at(users: Seq<LocalUserView>, home_is_dir: Seq<bool>, i: int) -> bool {
    0 <= i < users.len() && i < home_is_dir.len() && is_login_user_spec(users[i], home_is_dir[i])
}

/// Some account may run a terminal.
pub open spec fn has_login_user(users: Seq<LocalUserView>, home_is_dir: Seq<bool>) -> bool {
    exists|i: int| login_at(users, home_is_dir, i)
}

/// Account `i` is the first of the login accounts with the least uid (`min_by_key`).
pub open spec fn is_preferred(users: Seq<LocalUserView>, home_is_dir: Seq<bool>, i: int) -> bool {
    &&& login_at(users, home_is_dir, i)
    &&& forall|j: int| #[trigger]
        login_at(users, home_is_dir, j) ==> users[i].uid <= users[j].uid
    &&& forall|j: int| 0 <= j < i && #[trigger] login_at(users, home_is_dir, j) ==> users[i].uid
        < users[j].uid
}

/// The index of the preferred login account.
pub open spec fn preferred_index(users: Seq<LocalUserView>, home_is_dir: Seq<bool>) -> int {
    choose|i: int| is_preferred(users, home_is_dir, i)
}

/// At most one account is the preferred one.
pub proof fn lemma_preferred_unique(
    users: Seq<LocalUserView>,
    home_is_dir: Seq<bool>,
    i: int,
    k: int,
)
    requires
        is_preferred(users, home_is_dir, i),
        is_preferred(users, home_is_dir, k),
    ensures
        i == k,
{
    if i < k {
        assert(login_at(users, home_is_dir, i));
        assert(login_at(users, home_is_dir, k));
    } else if k < i {
        assert(login_at(users, home_is_dir, k));
        assert(login_at(users, home_is_dir, i));
    }
}

/// The login account to fall back on: the first one with the least uid.
pub fn preferred_login_user(users: &Vec<LocalUser>, home_is_dir: &Vec<bool>) -> (r: Option<
    LocalUser,
>)
    requires
        users@.len() == home_is_dir@.len(),
    ensures
        match r {
            Some(u) => has_login_user(users_view(users@), home_is_dir@) && u@ == users_view(
                users@,
            )[preferred_index(users_view(users@), home_is_dir@)],
            None => !has_login_user(users_view(users@), home_is_dir@),
        },
{
    let ghost us = users_view(users@);
    let ghost ds = home_is_dir@;
    let mut best: Option<usize> = None;
    let mut i: usize = 0;
    while i < users.len()
        invariant
            i <= users@.len(),
            us == users_view(users@),
            ds == home_is_dir@,
            users@.len() == home_is_dir@.len(),
            match best {
                Some(b) => {
                    &&& b < i
                    &&& login_at(us, ds, b as int)
                    &&& forall|j: int|
                        0 <= j < i && #[trigger] login_at(us, ds, j) ==> us[b as int].uid
                            <= us[j].uid
                    &&& forall|j: int|
                        0 <= j < b && #[trigger] login_at(us, ds, j) ==> us[b as int].uid
                            < us[j].uid
                },
                None => forall|j: int| 0 <= j < i ==> !#[trigger] login_at(us, ds, j),
            },
        decreases users.len() - i,
    {
        if is_login_user(&users[i], home_is_dir[i]) {
            match best {
                Some(b) => {
                    if users[i].uid < users[b].uid {
                        best = Some(i);
                    }
                },
                None => {
                    best = Some(i);
                },
            }
        }
        i = i + 1;
    }
    match best {
        Some(b) => {
            proof {
                assert(is_preferred(us, ds, b as int));
                lemma_preferred_unique(us, ds, b as int, preferred_index(us, ds));
            }
            Some(users[b].copied())
        },
        None => None,
    }
}

/// The environment variables that name the user who started the service.
#[derive(Debug)]
pub struct LoginEnv {
    pub sudo_user: Option<String>,
    pub logname: Option<String>,
    pub user: Option<String>,
}

pub struct LoginEnvView {
    pub sudo_user: Option<Seq<char>>,
    pub logname: Option<Seq<char>>,
    pub user: Option<Seq<char>>,
}

impl View for LoginEnv {
    type V = LoginEnvView;

    open spec fn view(&self) -> LoginEnvView {
        LoginEnvView {
            sudo_user: opt_view(self.sudo_user),
            logname: opt_view(self.logname),
            user: opt_view(self.user),
        }
    }
}

/// The environment's candidate names, in the order they are tried.
pub open spec fn env_candidates(env: LoginEnvView) -> Seq<Option<Seq<char>>> {
    seq![env.sudo_user, env.logname, env.user]
}

/// The account the environment names: the first candidate that is set, not empty, not
/// `root` and names an account; that account if it may run a terminal, else none.
pub open spec fn env_login_index(
    cands: Seq<Option<Seq<char>>>,
    users: Seq<LocalUserView>,
    home_is_dir: Seq<bool>,
) -> Option<int>
    decreases cands.len(),
{
    if cands.len() == 0 {
        None
    } else {
        match cands[0] {
            Some(n) => if n.len() > 0 && n != "root"@ && index_by_name(users, n) < users.len() {
                let i = index_by_name(users, n);
                if login_at(users, home_is_dir, i) {
                    Some(i)
                } else {
                    None
                }
            } else {
                env_login_index(cands.drop_first(), users, home_is_dir)
            },
            None => env_login_index(cands.drop_first(), users, home_is_dir),
        }
    }
}

fn env_candidate_index(
    cand: &Option<String>,
    users: &Vec<LocalUser>,
    home_is_dir: &Vec<bool>,
) -> (r: Option<Option<usize>>)
    requires
        users@.len() == home_is_dir@.len(),
    ensures
        match r {
            None => !(match opt_view(*cand) {
                Some(n) => n.len() > 0 && n != "root"@ && index_by_name(users_view(users@), n)
                    < users@.len(),
                None => false,
            }),
            Some(found) => {
                &&& opt_view(*cand) is Some
                &&& {
                    let n = opt_view(*cand)->0;
                    let i = index_by_name(users_view(users@), n);
                    &&& n.len() > 0 && n != "root"@ && i < users@.len()
                    &&& found is Some <==> login_at(users_view(users@), home_is_dir@, i)
                    &&& found matches Some(k) ==> k == i
                }
            },
        },
{
    match cand {
        Some(n) => {
            if n.as_str().is_empty() || str_eq(n.as_str(), "root") {
                return None;
            }
            let i = find_by_name(users, n.as_str());
            if i >= users.len() {
                return None;
            }
            if is_login_user(&users[i], home_is_dir[i]) {
                Some(Some(i))
            } else {
                Some(None)
            }
        },
        None => None,
    }
}

fn env_login_position(env: &LoginEnv, users: &Vec<LocalUser>, home_is_dir: &Vec<bool>) -> (r:
    Option<usize>)
    requires
        users@.len() == home_is_dir@.len(),
    ensures
        match r {
            Some(i) => env_login_index(env_candidates(env@), users_view(users@), home_is_dir@)
                == Some(i as int) && i < users@.len(),
            None => env_login_index(env_candidates(env@), users_view(users@), home_is_dir@)
                is None,
        },
{
    let ghost c = env_candidates(env@);
    let ghost us = users_view(users@);
    assert(c.drop_first().drop_first().drop_first() =~= Seq::<Option<Seq<char>>>::empty());
    assert(c[0] == env@.sudo_user);
    assert(c.drop_first()[0] == env@.logname);
    assert(c.drop_first().drop_first()[0] == env@.user);
    match env_candidate_index(&env.sudo_user, users, home_is_dir) {
        Some(found) => {
            proof {
                let n = env@.sudo_user->0;
                let i = index_by_name(us, n);
                assert(c.len() == 3);
                assert(env_login_index(c, us, home_is_dir@) == (if login_at(us, home_is_dir@, i) {
                    Some(i)
                } else {
                    None::<int>
                }));
            }
            return found;
        },
        None => {},
    }
    assert(env_login_index(c, us, home_is_dir@) == env_login_index(c.drop_first(), us, home_is_dir@));
    match env_candidate_index(&env.logname, users, home_is_dir) {
        Some(found) => {
            proof {
                let n = env@.logname->0;
                let i = index_by_name(us, n);
                assert(c.drop_first().len() == 2);
                assert(env_login_index(c.drop_first(), us, home_is_dir@) == (if login_at(
                    us,
                    home_is_dir@,
                    i,
                ) {
                    Some(i)
                } else {
                    None::<int>
                }));
            }
            return found;
        },
        None => {},
    }
    assert(env_login_index(c.drop_first(), us, home_is_dir@) == env_login_index(
        c.drop_first().drop_first(),
        us,
        home_is_dir@,
    ));
    let last = env_candidate_index(&env.user, users, home_is_dir);
    proof {
        let c3 = c.drop_first().drop_first();
        assert(c3.len() == 1);
        if last is Some {
            let n = env@.user->0;
            let i = index_by_name(us, n);
            assert(env_login_index(c3, us, home_is_dir@) == (if login_at(us, home_is_dir@, i) {
                Some(i)
            } else {
                None::<int>
            }));
        } else {
            assert(env_login_index(c3, us, home_is_dir@) == env_login_index(
                c3.drop_first(),
                us,
                home_is_dir@,
            ));
        }
    }
    match last {
        Some(found) => found,
        None => None,
    }
}

/// The login account that the environment names (`SUDO_USER`, `LOGNAME`, `USER`).
pub fn env_login_user(env: &LoginEnv, users: &Vec<LocalUser>, home_is_dir: &Vec<bool>) -> (r:
    Option<LocalUser>)
    requires
        users@.len() == home_is_dir@.len(),
    ensures
        opt_user_view(r) == (match env_login_index(
            env_candidates(env@),
            users_view(users@),
            home_is_dir@,
        ) {
            Some(i) => Some(users_view(users@)[i]),
            None => None,
        }),
{
    match env_login_position(env, users, home_is_dir) {
        Some(i) => Some(users[i].copied()),
        None => None,
    }
}

/// The view of an optional (name, uid) identity.
pub open spec fn identity_view(r: Option<(String, i64)>) -> Option<(Seq<char>, i64)> {
    match r {
        Some((n, u)) => Some((n@, u)),
        None => None,
    }
}

/// The identity the process itself stands for. Run as root, it is the login account the
/// environment names, else the preferred login account; otherwise, and when neither
/// exists, it is the process uid under the name of its account, of `USER`, of `LOGNAME`,
/// or `uid-<uid>`, provided that name is not empty.
pub open spec fn fallback_identity(
    uid: i64,
    env: LoginEnvView,
    users: Seq<LocalUserView>,
    home_is_dir: Seq<bool>,
) -> Option<(Seq<char>, i64)> {
    let from_env = env_login_index(env_candidates(env), users, home_is_dir);
    if uid == 0 && from_env is Some {
        Some((users[from_env->0].name, users[from_env->0].uid))
    } else if uid == 0 && has_login_user(users, home_is_dir) {
        let i = preferred_index(users, home_is_dir);
        Some((users[i].name, users[i].uid))
    } else {
        let name = match user_at(users, index_by_uid(users, uid)) {
            Some(u) => u.name,
            None => match env.user {
                Some(n) => n,
                None => match env.logname {
                    Some(n) => n,
                    None => "uid-"@ + signed_decimal(uid as int),
                },
            },
        };
        if name.len() > 0 {
            Some((name, uid))
        } else {
            None
        }
    }
}

/// The identity the process itself stands for; `uid` is the process's real uid.
pub fn fallback_real_user(
    uid: i64,
    env: &LoginEnv,
    users: &Vec<LocalUser>,
    home_is_dir: &Vec<bool>,
) -> (r: Option<(String, i64)>)
    requires
        users@.len() == home_is_dir@.len(),
    ensures
        identity_view(r) == fallback_identity(uid, env@, users_view(users@), home_is_dir@),
{
    if uid == 0 {
        match env_login_user(env, users, home_is_dir) {
            Some(u) => {
                return Some((u.name, u.uid));
            },
            None => {},
        }
        match preferred_login_user(users, home_is_dir) {
            Some(u) => {
                return Some((u.name, u.uid));
            },
            None => {},
        }
    }
    let name = match username_from_uid(users, uid) {
        Some(n) => n,
        None => match &env.user {
            Some(n) => n.clone(),
            None => match &env.logname {
                Some(n) => n.clone(),
                None => {
                    let d = i64_to_decimal(uid);
                    proof {
                        reveal_strlit("uid-");
                    }
                    concat_str("uid-", d.as_str())
                },
            },
        },
    };
    if !name.as_str().is_empty() {
        Some((name, uid))
    } else {
        None
    }
}

/// The identity of a request: the account the `x-fn-username` header names when that is a
/// login account (with the uid of the passwd database, never one the caller states),
/// otherwise the identity the process stands for.
pub open spec fn detected_identity(
    header_user: Option<Seq<char>>,
    uid: i64,
    env: LoginEnvView,
    users: Seq<LocalUserView>,
    home_is_dir: Seq<bool>,
) -> Option<(Seq<char>, i64)> {
    match header_user {
        Some(h) => {
            let i = index_by_name(users, h);
            if login_at(users, home_is_dir, i) {
                Some((users[i].name, users[i].uid))
            } else {
                fallback_identity(uid, env, users, home_is_dir)
            }
        },
        None => fallback_identity(uid, env, users, home_is_dir),
    }
}

/// The identity of a request. `header_user` is the user name the reverse proxy's header
/// carries, `uid` the process's real uid.
pub fn detect_real_user(
    header_user: Option<String>,
    uid: i64,
    env: &LoginEnv,
    users: &Vec<LocalUser>,
    home_is_dir: &Vec<bool>,
) -> (r: Option<(String, i64)>)
    requires
        users@.len() == home_is_dir@.len(),
    ensures
        identity_view(r) == detected_identity(
            opt_view(header_user),
            uid,
            env@,
            users_view(users@),
            home_is_dir@,
        ),
{
    match &header_user {
        Some(h) => {
            let i = find_by_name(users, h.as_str());
            if i < users.len() && is_login_user(&users[i], home_is_dir[i]) {
                return Some((users[i].name.clone(), users[i].uid));
            }
        },
        None => {},
    }
    fallback_real_user(uid, env, users, home_is_dir)
}

/// The header names account `i` (the first account of that name): when it is a login
/// account the identity is that account, under its own name and uid; when it is not, or
/// when no account has that name, or when there is no header, the identity is the one the
/// process stands for.
pub proof fn lemma_detected_identity_meaning(
    header: Seq<char>,
    uid: i64,
    env: LoginEnvView,
    users: Seq<LocalUserView>,
    home_is_dir: Seq<bool>,
    i: int,
)
    requires
        users.len() == home_is_dir.len(),
    ensures
        detected_identity(None, uid, env, users, home_is_dir) == fallback_identity(
            uid,
            env,
            users,
            home_is_dir,
        ),
        (forall|j: int| 0 <= j < users.len() ==> #[trigger] users[j].name != header)
            ==> detected_identity(Some(header), uid, env, users, home_is_dir) == fallback_identity(
            uid,
            env,
            users,
            home_is_dir,
        ),
        0 <= i < users.len() && users[i].name == header && (forall|j: int|
            0 <= j < i ==> #[trigger] users[j].name != header) ==> (if is_login_user_spec(
            users[i],
            home_is_dir[i],
        ) {
            detected_identity(Some(header), uid, env, users, home_is_dir) == Some(
                (header, users[i].uid),
            )
        } else {
            detected_identity(Some(header), uid, env, users, home_is_dir) == fallback_identity(
                uid,
                env,
                users,
                home_is_dir,
            )
        }),
{
    lemma_first_index(users, has_name(header));
    let k = index_by_name(users, header);
    if k < users.len() {
        assert(has_name(header)(users[k]));
    }
    if 0 <= i < users.len() && users[i].name == header && (forall|j: int|
        0 <= j < i ==> #[trigger] users[j].name != header) {
        assert forall|j: int| 0 <= j < i implies !has_name(header)(#[trigger] users[j]) by {
            assert(users[j].name != header);
        }
        assert(has_name(header)(users[i]));
        lemma_first_index_is(users, has_name(header), i);
    }
}

/// Without the root special case (`uid` other than 0) the identity always carries the
/// process uid, and it is the account that has that uid when there is one (the first
/// such account, with a non-empty name).
pub proof fn lemma_fallback_keeps_uid(
    uid: i64,
    env: LoginEnvView,
    users: Seq<LocalUserView>,
    home_is_dir: Seq<bool>,
    k: int,
)
    requires
        uid != 0,
    ensures
        fallback_identity(uid, env, users, home_is_dir) matches Some((n, u)) ==> u == uid,
        0 <= k < users.len() && users[k].uid == uid && users[k].name.len() > 0 && (forall|j: int|
            0 <= j < k ==> #[trigger] users[j].uid != uid) ==> fallback_identity(
            uid,
            env,
            users,
            home_is_dir,
        ) == Some((users[k].name, uid)),
{
    if 0 <= k < users.len() && users[k].uid == uid && (forall|j: int|
        0 <= j < k ==> #[trigger] users[j].uid != uid) {
        assert forall|j: int| 0 <= j < k implies !has_uid(uid)(#[trigger] users[j]) by {
            assert(users[j].uid != uid);
        }
        assert(has_uid(uid)(users[k]));
        lemma_first_index_is(users, has_uid(uid), k);
    }
}

/// A header can only select a local login account, under that account's own uid; any
/// other header value leaves the identity what it would be without the header.
pub proof fn lemma_header_cannot_choose_uid(
    header: Seq<char>,
    uid: i64,
    env: LoginEnvView,
    users: Seq<LocalUserView>,
    home_is_dir: Seq<bool>,
)
    ensures
        ({
            let with_header = detected_identity(Some(header), uid, env, users, home_is_dir);
            let without = detected_identity(None, uid, env, users, home_is_dir);
            ||| with_header == without
            ||| exists|i: int|
                #![trigger users[i]]
                login_at(users, home_is_dir, i) && users[i].name == header && with_header == Some(
                    (users[i].name, users[i].uid),
                ) && users[i].uid >= 1000
        }),
{
    let i = index_by_name(users, header);
    lemma_first_index(users, has_name(header));
    if login_at(users, home_is_dir, i) {
        assert(has_name(header)(users[i]));
    }
}


// ─── Tokens ─────────────────────────────────────────────────────────────

/// What a signed token asserts: who, and until when (seconds since the epoch).
#[derive(Debug)]
pub struct Claims {
    pub uid: i64,
    pub user: String,
    pub exp: usize,
}

/// How long a token stays valid: thirty days, in seconds.
pub const TOKEN_LIFETIME_SECS: i64 = 2592000;

/// The claims of a token issued at `now` (seconds since the epoch) for `user`.
pub fn jwt_claims(user: &AuthUser, now: i64) -> (r: Claims)
    requires
        0 <= now,
        now + TOKEN_LIFETIME_SECS <= usize::MAX,
    ensures
        r.uid == user.uid,
        r.user@ == user.user@,
        r.exp == now + TOKEN_LIFETIME_SECS,
{
    Claims { uid: user.uid, user: user.user.clone(), exp: now as usize + 2592000usize }
}

/// The claims of a token issued now for `user`, the clock giving the time; `None` when
/// the expiry does not fit a `usize`.
pub fn claims_now(user: &AuthUser) -> (r: Option<Claims>)
    ensures
        r matches Some(c) ==> c.uid == user.uid && c.user@ == user.user@ && c.exp
            >= TOKEN_LIFETIME_SECS,
        usize::MAX == u64::MAX ==> r is Some,
{
    let now = unix_seconds();
    if now as u64 > usize::MAX as u64 || (now as u64 as usize) > usize::MAX - 2592000usize {
        return None;
    }
    Some(jwt_claims(user, now))
}

/// The token of an `Authorization: Bearer <token>` header value.
pub open spec fn bearer_token(authorization: Option<Seq<char>>) -> Option<Seq<char>> {
    match authorization {
        Some(h) => if has_prefix(h, "Bearer "@) {
            Some(h.skip(7))
        } else {
            None
        },
        None => None,
    }
}

/// The part of the query string that starts with `token=`.
pub open spec fn is_token_param() -> spec_fn(Seq<char>) -> bool {
    |p: Seq<char>| has_prefix(p, "token="@)
}

/// The token of the first `token=` parameter of a query string, every leading `token=`
/// removed.
pub open spec fn query_token(query: Option<Seq<char>>) -> Option<Seq<char>> {
    match query {
        Some(q) => {
            let parts = split_char(q, '&');
            let i = first_index(parts, is_token_param());
            if 0 <= i < parts.len() {
                Some(strip_all_prefix(parts[i], "token="@))
            } else {
                None
            }
        },
        None => None,
    }
}

/// The token a request carries: from the `Authorization` header, else from the query.
pub open spec fn request_token(authorization: Option<Seq<char>>, query: Option<Seq<char>>) -> Option<
    Seq<char>,
> {
    match bearer_token(authorization) {
        Some(t) => Some(t),
        None => query_token(query),
    }
}

fn bearer_token_of(authorization: Option<&str>) -> (r: Option<String>)
    ensures
        opt_view(r) == bearer_token(match authorization {
            Some(h) => Some(h@),
            None => None,
        }),
{
    match authorization {
        Some(h) => {
            proof {
                reveal_strlit("Bearer ");
            }
            if str_starts_with(h, "Bearer ") {
                let v = chars_of(h);
                let rest = crate::text::string_from_range(v.as_slice(), 7, v.len());
                Some(rest)
            } else {
                None
            }
        },
        None => None,
    }
}

fn query_token_of(query: Option<&str>) -> (r: Option<String>)
    ensures
        opt_view(r) == query_token(match query {
            Some(q) => Some(q@),
            None => None,
        }),
{
    match query {
        Some(q) => {
            let parts = split_string(q, '&');
            let ghost ps = parts.deep_view();
            let mut i: usize = 0;
            while i < parts.len()
                invariant
                    i <= parts@.len(),
                    ps == parts.deep_view(),
                    ps == split_char(q@, '&'),
                    query == Some(q),
                    forall|j: int| 0 <= j < i ==> !is_token_param()(#[trigger] ps[j]),
                decreases parts.len() - i,
            {
                if str_starts_with(parts[i].as_str(), "token=") {
                    proof {
                        lemma_first_index_is(ps, is_token_param(), i as int);
                        assert(ps[i as int] == parts[i as int]@);
                    }
                    let t = trim_start_matches(parts[i].as_str(), "token=");
                    return Some(t);
                }
                i = i + 1;
            }
            proof {
                lemma_first_index_is(ps, is_token_param(), i as int);
            }
            None
        },
        None => None,
    }
}

/// The token a request carries. `authorization` is the `Authorization` header's value,
/// `query` the URI's query string.
pub fn extract_token(authorization: Option<&str>, query: Option<&str>) -> (r: Option<String>)
    ensures
        opt_view(r) == request_token(
            match authorization {
                Some(h) => Some(h@),
                None => None,
            },
            match query {
                Some(q) => Some(q@),
                None => None,
            },
        ),
{
    match bearer_token_of(authorization) {
        Some(t) => Some(t),
        None => query_token_of(query),
    }
}

/// A rejected credential; answered with 401 and the message.
#[derive(Debug)]
pub struct AuthError(pub String);

/// The user a request was authenticated as.
#[derive(Debug)]
pub struct AuthUserExtractor(pub AuthUser);

/// What to do with a request's credentials.
#[derive(Debug)]
pub enum AuthDecision {
    /// Refuse it.
    Reject(AuthError),
    /// Accept it as this user without a token.
    Grant(AuthUser),
    /// Accept it only if this token verifies.
    VerifyToken(String),
}

/// The decision when only a token can authenticate the request.
pub open spec fn token_required(r: AuthDecision, token: Option<String>) -> bool {
    match token {
        Some(t) => r matches AuthDecision::VerifyToken(x) && x@ == t@,
        None => r matches AuthDecision::Reject(e) && e.0@ == "Authentication required"@,
    }
}

/// What `auth_decision` answers: refuse when the configuration is unreachable; grant the
/// detected identity while no password is set; otherwise verify the token, or refuse when
/// there is none.
pub open spec fn auth_decision_post(
    config_present: bool,
    detected: Option<(String, i64)>,
    has_password: bool,
    token: Option<String>,
    r: AuthDecision,
) -> bool {
    &&& !config_present ==> (r matches AuthDecision::Reject(e) && e.0@
        == "Server config not found"@)
    &&& config_present && !has_password ==> match detected {
        Some((n, u)) => r matches AuthDecision::Grant(a) && a@ == admin_user_view(n@, u),
        None => token_required(r, token),
    }
    &&& config_present && has_password ==> token_required(r, token)
}

/// How to authenticate a request. `config_present` says whether the server configuration
/// is reachable, `detected` is the request's identity, `has_password` whether an
/// application password is set, `token` the token the request carries.
pub fn auth_decision(
    config_present: bool,
    detected: Option<(String, i64)>,
    has_password: bool,
    token: Option<String>,
) -> (r: AuthDecision)
    ensures
        auth_decision_post(config_present, detected, has_password, token, r),
{
    if !config_present {
        return AuthDecision::Reject(AuthError(String::from_str("Server config not found")));
    }
    match detected {
        Some((user, uid)) => {
            if !has_password {
                return AuthDecision::Grant(AuthUser::admin(user, uid));
            }
        },
        None => {},
    }
    match token {
        Some(t) => AuthDecision::VerifyToken(t),
        None => AuthDecision::Reject(AuthError(String::from_str("Authentication required"))),
    }
}

/// The user a verified token stands for; `claims` is `None` when the token did not verify.
pub fn token_outcome(claims: Option<Claims>) -> (r: Result<AuthUser, AuthError>)
    ensures
        match claims {
            Some(c) => r matches Ok(u) && u@ == admin_user_view(c.user@, c.uid),
            None => r matches Err(e) && e.0@ == "Invalid token"@,
        },
{
    match claims {
        Some(c) => Ok(AuthUser::admin(c.user, c.uid)),
        None => Err(AuthError(String::from_str("Invalid token"))),
    }
}

/// What a token says when its HS256 signature is valid under `secret`: the `uid` (an
/// integer), `user` (a string) and `exp` (a non-negative integer) of its payload; `None`
/// for a token that is malformed, signed otherwise, or lacks these claims.
pub uninterp spec fn jwt_payload(token: Seq<char>, secret: Seq<char>) -> Option<(i64, Seq<char>, nat)>;

/// The HS256 token, with the default header, that carries these claims under `secret`.
pub uninterp spec fn jwt_token(uid: i64, user: Seq<char>, exp: nat, secret: Seq<char>) -> Seq<char>;

/// `jsonwebtoken::encode` with the default (HS256) header and `EncodingKey::from_secret`,
/// on the claims as a JSON object of `uid`, `user` and `exp`. It does not fail here:
/// `encode` fails only when the key's algorithm family differs from the header's (both
/// are HMAC) or when the claims do not serialise (a map of a string and two integers
/// always does), and HS256 signing cannot fail. The token is the one named `jwt_token`,
/// and its signature verifies under the same secret to the same claims.
#[verifier::external_body]
fn encode_token(claims: &Claims, secret: &str) -> (r: Option<String>)
    ensures
        r is Some,
        r matches Some(t) ==> t@ == jwt_token(claims.uid, claims.user@, claims.exp as nat, secret@)
            && jwt_payload(t@, secret@) == Some((claims.uid, claims.user@, claims.exp as nat)),
{
    let mut map = serde_json::Map::new();
    map.insert("uid".to_string(), serde_json::Value::from(claims.uid));
    map.insert("user".to_string(), serde_json::Value::from(claims.user.as_str()));
    map.insert("exp".to_string(), serde_json::Value::from(claims.exp));
    let key = jsonwebtoken::EncodingKey::from_secret(secret.as_bytes());
    jsonwebtoken::encode(&jsonwebtoken::Header::default(), &map, &key).ok()
}

/// `jsonwebtoken::decode` with `DecodingKey::from_secret` and the default validation
/// (HS256, `exp` required and not past, with its leeway), into a JSON object whose `uid`,
/// `user` and `exp` are taken. Claims it returns are the token's payload; whether a token
/// has expired depends on the clock, so when it returns `None` is not stated.
#[verifier::external_body]
pub(crate) fn decode_token(token: &str, secret: &str) -> (r: Option<Claims>)
    ensures
        r matches Some(c) ==> jwt_payload(token@, secret@) == Some((c.uid, c.user@, c.exp as nat)),
{
    let key = jsonwebtoken::DecodingKey::from_secret(secret.as_bytes());
    let validation = jsonwebtoken::Validation::default();
    let data = jsonwebtoken::decode::<serde_json::Map<String, serde_json::Value>>(token, &key, &validation).ok()?;
    let c = data.claims;
    Some(Claims {
        uid: c.get("uid")?.as_i64()?,
        user: c.get("user")?.as_str()?.to_string(),
        exp: usize::try_from(c.get("exp")?.as_u64()?).ok()?,
    })
}

/// A token for `user`, valid for thirty days from now, signed with the configured secret.
/// It is refused only when the expiry does not fit a `usize`, which cannot happen with a
/// 64-bit `usize`.
pub fn create_jwt(config: &AppConfig, user: &AuthUser) -> (r: Result<String, String>)
    ensures
        usize::MAX == u64::MAX ==> r is Ok,
        r matches Err(m) ==> m@ == "valid timestamp"@,
        r matches Ok(t) ==> (jwt_payload(t@, config.jwt_secret@) matches Some((uid, name, exp))
            && uid == user.uid && name == user.user@ && exp >= TOKEN_LIFETIME_SECS && t@
            == jwt_token(uid, name, exp, config.jwt_secret@)),
{
    let claims = match claims_now(user) {
        Some(c) => c,
        None => {
            return Err(String::from_str("valid timestamp"));
        },
    };
    match encode_token(&claims, config.jwt_secret.as_str()) {
        Some(t) => Ok(t),
        None => Err(String::from_str("valid timestamp")),
    }
}

/// How a request is authenticated: refused when the configuration is unreachable; the
/// detected identity while no password is set; otherwise by its token, which must carry
/// a valid signature, and then stands for the user in its payload.
pub open spec fn authenticate_post(
    config_present: bool,
    detected: Option<(String, i64)>,
    has_password: bool,
    token: Option<Seq<char>>,
    secret: Seq<char>,
    r: Result<AuthUser, AuthError>,
) -> bool {
    if !config_present {
        r matches Err(e) && e.0@ == "Server config not found"@
    } else if !has_password && detected is Some {
        match detected {
            Some((n, uid)) => r matches Ok(u) && u@ == admin_user_view(n@, uid),
            None => false,
        }
    } else {
        match token {
            None => r matches Err(e) && e.0@ == "Authentication required"@,
            Some(t) => match r {
                Ok(u) => jwt_payload(t, secret) matches Some((uid, name, _)) && u@
                    == admin_user_view(name, uid),
                Err(e) => e.0@ == "Invalid token"@,
            },
        }
    }
}

/// Authenticates a request. `authorization` is its `Authorization` header, `query` its
/// query string, `secret` the signing secret.
pub fn authenticate(
    config_present: bool,
    detected: Option<(String, i64)>,
    has_password: bool,
    authorization: Option<&str>,
    query: Option<&str>,
    secret: &str,
) -> (r: Result<AuthUser, AuthError>)
    ensures
        authenticate_post(
            config_present,
            detected,
            has_password,
            request_token(
                match authorization {
                    Some(h) => Some(h@),
                    None => None,
                },
                match query {
                    Some(q) => Some(q@),
                    None => None,
                },
            ),
            secret@,
            r,
        ),
{
    let token = extract_token(authorization, query);
    match auth_decision(config_present, detected, has_password, token) {
        AuthDecision::Reject(e) => Err(e),
        AuthDecision::Grant(u) => Ok(u),
        AuthDecision::VerifyToken(t) => token_outcome(decode_token(t.as_str(), secret)),
    }
}

/// How a request's credentials are judged: with no configuration it is refused; while no
/// password is set a detected identity is accepted as an administrator under its own name
/// and uid; otherwise only its token can authenticate it, and without one it is refused.
/// An identity alone is never accepted once a password is set.
pub proof fn lemma_auth_decision_meaning(
    config_present: bool,
    detected: Option<(String, i64)>,
    has_password: bool,
    token: Option<String>,
    r: AuthDecision,
)
    requires
        auth_decision_post(config_present, detected, has_password, token, r),
    ensures
        !config_present ==> (r matches AuthDecision::Reject(e) && e.0@ == "Server config not found"@),
        config_present && !has_password ==> (detected matches Some((n, u)) ==> (r matches AuthDecision::Grant(
            a,
        ) && a.uid == u && a.user@ == n@ && a.is_admin)),
        config_present && (has_password || detected is None) ==> (token matches Some(t) ==> (
        r matches AuthDecision::VerifyToken(x) && x@ == t@)),
        config_present && (has_password || detected is None) && token is None ==> (
        r matches AuthDecision::Reject(e) && e.0@ == "Authentication required"@),
        r is Grant ==> config_present && !has_password && detected is Some,
{
}

/// Authentication as a whole: refused with no configuration; a detected identity while no
/// password is set; otherwise the token decides, and an accepted token stands for the user
/// in its verified payload; with a password set nothing but such a token is accepted.
pub proof fn lemma_authenticate_meaning(
    config_present: bool,
    detected: Option<(String, i64)>,
    has_password: bool,
    token: Option<Seq<char>>,
    secret: Seq<char>,
    r: Result<AuthUser, AuthError>,
)
    requires
        authenticate_post(config_present, detected, has_password, token, secret, r),
    ensures
        !config_present ==> (r matches Err(e) && e.0@ == "Server config not found"@),
        config_present && !has_password ==> (detected matches Some((n, u)) ==> (r matches Ok(a)
            && a.uid == u && a.user@ == n@ && a.is_admin)),
        config_present && (has_password || detected is None) && token is None ==> (r matches Err(
            e,
        ) && e.0@ == "Authentication required"@),
        config_present && (has_password || detected is None) ==> (r matches Ok(a) ==> (token matches Some(
            t,
        ) && (jwt_payload(t, secret) matches Some((uid, name, _)) && a.uid == uid && a.user@ == name
            && a.is_admin))),
        config_present && (has_password || detected is None) ==> (token is Some && r is Err ==> (
        r matches Err(e) && e.0@ == "Invalid token"@)),
{
}

/// The token a request carries in an `Authorization: Bearer <token>` header is that token,
/// whatever the query string says.
pub proof fn lemma_bearer_token(t: Seq<char>, query: Option<Seq<char>>)
    ensures
        request_token(Some("Bearer "@ + t), query) == Some(t),
{
    reveal_strlit("Bearer ");
    let h = "Bearer "@ + t;
    assert(h.take(7) =~= "Bearer "@);
    assert(h.skip(7) =~= t);
}

/// Without a bearer `Authorization` header the token comes from the query: a query that is
/// just `token=<t>` carries `t` (when `t` holds no `&` and does not itself start with
/// `token=`), and a header that is not a bearer header is passed over.
pub proof fn lemma_query_token(t: Seq<char>, header: Seq<char>, query: Option<Seq<char>>)
    ensures
        !t.contains('&') && !has_prefix(t, "token="@) ==> request_token(None, Some("token="@ + t))
            == Some(t),
        !has_prefix(header, "Bearer "@) ==> request_token(Some(header), query) == request_token(
            None,
            query,
        ),
{
    reveal_strlit("token=");
    let q = "token="@ + t;
    if !t.contains('&') && !has_prefix(t, "token="@) {
        assert(!q.contains('&')) by {
            if q.contains('&') {
                let j = choose|j: int| 0 <= j < q.len() && q[j] == '&';
                if j >= 6 {
                    assert(q[j] == t[j - 6]);
                    assert(t.contains('&'));
                }
            }
        }
        assert(forall|i: int| 0 <= i < seq![q].len() ==> !(#[trigger] seq![q][i]).contains('&'));
        lemma_split_join(seq![q], '&');
        assert(join_with(seq![q], '&') == q);
        let parts = split_char(q, '&');
        assert(parts == seq![q]);
        assert(q.take(6) =~= "token="@);
        assert(is_token_param()(parts[0]));
        lemma_first_index_is(parts, is_token_param(), 0);
        assert(q.skip(6) =~= t);
        assert(strip_all_prefix(q, "token="@) == strip_all_prefix(t, "token="@));
    }
}

/// A token is accepted only with a valid signature, and then stands for exactly the user
/// it was issued to: a token `create_jwt` issued for a user authenticates, if at all, as
/// that user; one whose signature does not verify never authenticates.
pub proof fn lemma_token_round_trip(
    token: Seq<char>,
    secret: Seq<char>,
    detected: Option<(String, i64)>,
    r: Result<AuthUser, AuthError>,
)
    requires
        authenticate_post(true, detected, true, Some(token), secret, r),
    ensures
        jwt_payload(token, secret) is None ==> r is Err,
        forall|uid: i64, name: Seq<char>, exp: nat|
            jwt_payload(token, secret) == Some((uid, name, exp)) ==> (r matches Ok(u) ==> u@
                == admin_user_view(name, uid)),
{
}

// ─── The application password ───────────────────────────────────────────

/// The first screen: `login` once a password is set, `public` once the user chose to run
/// without one, `setup` before either.
pub open spec fn auth_status_spec(has_password: bool, has_skip: bool) -> Seq<char> {
    if has_password {
        "login"@
    } else if has_skip {
        "public"@
    } else {
        "setup"@
    }
}

/// The first screen, from whether the password file and the skip marker exist.
pub fn auth_status(has_password: bool, has_skip: bool) -> (r: AppPasswordStatus)
    ensures
        r.status@ == auth_status_spec(has_password, has_skip),
        has_password ==> r.status@ == "login"@,
        !has_password && has_skip ==> r.status@ == "public"@,
        !has_password && !has_skip ==> r.status@ == "setup"@,
{
    let status = if has_password {
        String::from_str("login")
    } else if has_skip {
        String::from_str("public")
    } else {
        String::from_str("setup")
    };
    AppPasswordStatus { status }
}

/// The first screen: once a password is set it is always the login screen, whatever skip
/// marker is left behind; without one, `public` after the user chose to skip it, else
/// first-run `setup`; and it is the login screen only when a password is set.
pub proof fn lemma_first_screen(has_password: bool, has_skip: bool)
    ensures
        has_password ==> auth_status_spec(has_password, has_skip) == "login"@,
        !has_password && has_skip ==> auth_status_spec(has_password, has_skip) == "public"@,
        !has_password && !has_skip ==> auth_status_spec(has_password, has_skip) == "setup"@,
        auth_status_spec(has_password, has_skip) == "login"@ ==> has_password,
{
    reveal_strlit("login");
    reveal_strlit("public");
    reveal_strlit("setup");
    assert("login"@[0] != "setup"@[0]);
    assert("login"@.len() != "public"@.len());
}

/// Whenever the first screen is the login screen (a password is set), a request's identity
/// alone never authenticates it, whatever skip marker is left behind: only a token can.
pub proof fn lemma_login_screen_means_token(
    has_password: bool,
    has_skip: bool,
    config_present: bool,
    detected: Option<(String, i64)>,
    token: Option<String>,
    r: AuthDecision,
)
    requires
        auth_decision_post(config_present, detected, has_password, token, r),
        auth_status_spec(has_password, has_skip) == "login"@,
    ensures
        !(r is Grant),
{
    reveal_strlit("login");
    reveal_strlit("public");
    reveal_strlit("setup");
    assert(has_password) by {
        if !has_password {
            if has_skip {
                assert("public"@[0] != "login"@[0]);
            } else {
                assert("setup"@[0] != "login"@[0]);
            }
        }
    }
}

/// Setting the password is allowed only before the first run was completed.
pub fn setup_allowed(has_password: bool, has_skip: bool) -> (r: Result<(), ApiError>)
    ensures
        r is Ok <==> !has_password && !has_skip,
        r matches Err(e) ==> is_api_error(e, STATUS_BAD_REQUEST, "应用已完成初始化"@),
{
    if has_password || has_skip {
        Err(ApiError::new(String::from_str("应用已完成初始化")))
    } else {
        Ok(())
    }
}

/// The identity a sign-in is issued for, or the refusal when there is none.
pub fn require_identity(detected: Option<(String, i64)>) -> (r: Result<AuthUser, ApiError>)
    ensures
        match detected {
            Some((n, u)) => r matches Ok(a) && a@ == admin_user_view(n@, u),
            None => r matches Err(e) && is_api_error(
                e,
                STATUS_BAD_REQUEST,
                "无法识别系统用户身份，请通过桌面启动应用"@,
            ),
        },
{
    match detected {
        Some((n, u)) => Ok(AuthUser::admin(n, u)),
        None => Err(ApiError::new(String::from_str("无法识别系统用户身份，请通过桌面启动应用"))),
    }
}

/// The answer to "who am I": the identity, or a failure when none was detected.
pub fn me_response(detected: Option<(String, i64)>) -> (r: ApiResponse<AuthUser>)
    ensures
        match detected {
            Some((n, u)) => (r.data matches Some(a) && a@ == admin_user_view(n@, u)
                && r.success && r.message@ == "ok"@),
            None => !r.success && r.message@ == "未检测到系统登录信息"@ && r.data is None,
        },
{
    match detected {
        Some((n, u)) => ApiResponse::ok(AuthUser::admin(n, u)),
        None => ApiResponse::failure(String::from_str("未检测到系统登录信息")),
    }
}

#[verifier::external_type_specification]
#[verifier::external_body]
pub struct ExBcryptError(bcrypt::BcryptError);

/// What `bcrypt::verify` answers for a password and a stored hash: `Some(matches)`, or
/// `None` when it fails.
pub uninterp spec fn bcrypt_verify_result(password: Seq<char>, hash: Seq<char>) -> Option<bool>;

/// A bcrypt hash string: sixty printable ASCII characters.
pub open spec fn is_bcrypt_hash_text(h: Seq<char>) -> bool {
    h.len() == 60 && forall|i: int| 0 <= i < h.len() ==> '!' <= #[trigger] h[i] && h[i] <= '~'
}

/// `bcrypt::hash` at `bcrypt::DEFAULT_COST`, with a random salt. It fails only when no
/// random salt can be had. A hash it returns is `$2b$12$` and 53 base64 characters, and
/// `bcrypt::verify` accepts the same password against it (same salt and cost, so the same
/// digest). Which salt is drawn is not stated.
#[verifier::external_body]
pub fn hash_password(pwd: &str) -> (r: Result<String, bcrypt::BcryptError>)
    ensures
        r matches Ok(h) ==> is_bcrypt_hash_text(h@) && bcrypt_verify_result(pwd@, h@) == Some(
            true,
        ),
{
    bcrypt::hash(pwd, bcrypt::DEFAULT_COST)
}

/// `bcrypt::verify`: whether the password matches the stored hash. It fails on a hash
/// that is not sixty ASCII characters in the bcrypt format.
#[verifier::external_body]
pub fn verify_password(pwd: &str, hash: &str) -> (r: Result<bool, bcrypt::BcryptError>)
    ensures
        match r {
            Ok(b) => bcrypt_verify_result(pwd@, hash@) == Some(b),
            Err(_) => bcrypt_verify_result(pwd@, hash@) is None,
        },
        hash@.len() != 60 ==> r is Err,
{
    bcrypt::verify(pwd, hash)
}

/// The text of a bcrypt error (its `Display`): every variant's text starts with an ASCII
/// capital (`Cost …`, `Invalid hash: …`, `Rand error: …`, `Expected …`). The rest is not
/// stated.
#[verifier::external_body]
fn bcrypt_error_text(e: &bcrypt::BcryptError) -> (r: String)
    ensures
        r@.len() > 0 && 'A' <= r@[0] && r@[0] <= 'Z',
{
    e.to_string()
}

/// The shortest password accepted, in bytes of UTF-8.
pub const MIN_PASSWORD_BYTES: usize = 6;

/// The stored hash for a new password. Passwords shorter than six bytes are refused;
/// a hashing failure is reported with its text.
pub fn prepare_password(pwd: &str) -> (r: Result<String, ApiError>)
    ensures
        pwd.spec_bytes().len() < 6 ==> (r matches Err(e) && is_api_error(
            e,
            STATUS_BAD_REQUEST,
            "密码至少需要6位"@,
        )),
        r matches Ok(h) ==> pwd.spec_bytes().len() >= 6 && is_bcrypt_hash_text(h@)
            && bcrypt_verify_result(pwd@, h@) == Some(true),
        r matches Err(e) ==> !e.success && e.status == STATUS_BAD_REQUEST,
        r matches Err(e) ==> (e.message@ == "密码至少需要6位"@ <==> pwd.spec_bytes().len() < 6),
{
    proof {
        reveal_strlit("密码至少需要6位");
    }
    if pwd.as_bytes().len() < MIN_PASSWORD_BYTES {
        return Err(ApiError::new(String::from_str("密码至少需要6位")));
    }
    match hash_password(pwd) {
        Ok(h) => Ok(h),
        Err(e) => Err(ApiError::new(bcrypt_error_text(&e))),
    }
}

/// The outcome of signing in with `password` against the stored file contents `stored`
/// (the hash, surrounding white space ignored).
pub open spec fn login_accepted(password: Seq<char>, stored: Seq<char>) -> bool {
    bcrypt_verify_result(password, trim(stored)) == Some(true)
}

/// Checks a sign-in password against the stored hash file's contents.
pub fn check_login(password: &str, stored: &str) -> (r: Result<(), ApiError>)
    ensures
        r is Ok <==> login_accepted(password@, stored@),
        bcrypt_verify_result(password@, trim(stored@)) == Some(false) ==> (r matches Err(e)
            && is_api_error(e, STATUS_BAD_REQUEST, "密码错误"@)),
        bcrypt_verify_result(password@, trim(stored@)) is None ==> (r matches Err(e) && has_prefix(
            e.message@,
            "验证失败: "@,
        )),
        r matches Err(e) ==> !e.success && e.status == STATUS_BAD_REQUEST,
{
    let hash = trim_string(stored);
    match verify_password(password, hash.as_str()) {
        Ok(valid) => {
            if valid {
                Ok(())
            } else {
                Err(ApiError::new(String::from_str("密码错误")))
            }
        },
        Err(e) => {
            let text = bcrypt_error_text(&e);
            let msg = concat_str("验证失败: ", text.as_str());
            proof {
                reveal_strlit("验证失败: ");
                assert(msg@.take("验证失败: "@.len() as int) =~= "验证失败: "@);
            }
            Err(ApiError::new(msg))
        },
    }
}

/// A password that was accepted at setup signs in afterwards: the stored hash, read back
/// as the file's contents, verifies against the same password.
pub proof fn lemma_setup_then_login(password: Seq<char>, stored: Seq<char>)
    requires
        is_bcrypt_hash_text(stored),
        bcrypt_verify_result(password, stored) == Some(true),
    ensures
        login_accepted(password, stored),
{
    assert(trim_start(stored) == stored);
    assert(trim_end(stored) == stored);
}


// ─── The token signing secret ───────────────────────────────────────────

/// Where the signing secret comes from.
#[derive(Debug)]
pub enum SecretSource {
    /// Use this secret (from the environment or the secret file).
    Use(String),
    /// Generate a new one and save it.
    Generate,
}

/// Where the signing secret comes from: the environment's when it is not empty, else the
/// secret file's contents trimmed when that is not empty, else a new one.
pub open spec fn secret_choice(env_secret: Seq<char>, file: Option<Seq<char>>, r: SecretSource) -> bool {
    &&& env_secret.len() > 0 ==> (r matches SecretSource::Use(s) && s@ == env_secret)
    &&& env_secret.len() == 0 ==> match file {
        Some(c) => if trim(c).len() > 0 {
            r matches SecretSource::Use(s) && s@ == trim(c)
        } else {
            r is Generate
        },
        None => r is Generate,
    }
}

/// The signing secret: the environment's when it is not empty, else the secret file's
/// contents trimmed when that is not empty, else a new one.
pub fn choose_jwt_secret(env_secret: &str, file_contents: Option<&str>) -> (r: SecretSource)
    ensures
        secret_choice(
            env_secret@,
            match file_contents {
                Some(c) => Some(c@),
                None => None,
            },
            r,
        ),
        env_secret@.len() > 0 ==> (r matches SecretSource::Use(s) && s@ == env_secret@),
        env_secret@.len() == 0 && file_contents is None ==> r is Generate,
        env_secret@.len() == 0 ==> (file_contents matches Some(c) ==> (trim(c@).len() > 0 ==> (
        r matches SecretSource::Use(s) && s@ == trim(c@)))),
        env_secret@.len() == 0 ==> (file_contents matches Some(c) ==> (trim(c@).len() == 0 ==> r
            is Generate)),
{
    if !env_secret.is_empty() {
        return SecretSource::Use(String::from_str(env_secret));
    }
    match file_contents {
        Some(c) => {
            let t = trim_string(c);
            if !t.as_str().is_empty() {
                SecretSource::Use(t)
            } else {
                SecretSource::Generate
            }
        },
        None => SecretSource::Generate,
    }
}

/// A new signing secret: the hyphenated texts of two fresh random UUIDs, one after the other.
pub fn new_jwt_secret() -> (r: String)
    ensures
        exists|a: Seq<char>, b: Seq<char>| is_uuid_text(a) && is_uuid_text(b) && r@ == a + b,
{
    let a = uuid_text();
    let b = uuid_text();
    let r = concat_str(a.as_str(), b.as_str());
    assert(is_uuid_text(a@) && is_uuid_text(b@) && r@ == a@ + b@);
    r
}

/// A generated secret is kept: once saved to the secret file, the next start with no
/// secret in the environment reads it back unchanged (it has no white space to trim).
pub proof fn lemma_generated_secret_kept(a: Seq<char>, b: Seq<char>, r: SecretSource)
    requires
        is_uuid_text(a),
        is_uuid_text(b),
        secret_choice(Seq::empty(), Some(a + b), r),
    ensures
        r matches SecretSource::Use(s) && s@ == a + b,
{
    let s = a + b;
    assert(s[0] == a[0] && is_lower_hex(a[0]));
    assert(s.last() == b[35] && is_lower_hex(b[35]));
    assert(trim_start(s) == s);
    assert(trim_end(s) == s);
}

} // verus!
