//! Single-sign-on identity as a forward-auth proxy asserts it: the user
//! fields carried in trusted request headers, and the group-based role
//! rules applied to them. Reading the headers themselves is transport work
//! and lives with the caller, which hands over the plain values.

use vstd::prelude::*;

use vstd::string::{StrSliceExecFns, StringExecFns};

use crate::email::first_index;
use crate::models::User;
use crate::strutil::{
    contains_char, eq_ignore_ascii_case, find_char, lower_of, spec_eq_ignore_ascii_case, spec_trim,
    str_eq, to_lowercase, trim,
};

verus! {

/// User identity asserted by the proxy: the email (the primary identifier),
/// an optional display name, and the user's groups.
#[derive(Debug, Clone)]
pub struct AutheliaUserInfo {
    pub email: String,
    pub name: Option<String>,
    pub groups: Vec<String>,
}

/// An authenticated user recognised via proxy headers, as request handlers
/// receive it.
pub struct AutheliaUser(pub User);

/// What the frontend needs to know of the single-sign-on setup.
#[derive(Debug)]
pub struct AutheliaConfig {
    pub enabled: bool,
    pub login_url: Option<String>,
    pub logout_url: Option<String>,
}

impl AutheliaConfig {
    /// Builds the frontend view of the setup from the three environment
    /// values the caller read: enabled exactly when the flag value,
    /// lowercased, is `true`, or is `1`; an absent flag means disabled. The
    /// URLs are passed through as read.
    pub fn from_values(
        enabled_flag: Option<String>,
        login_url: Option<String>,
        logout_url: Option<String>,
    ) -> (r: AutheliaConfig)
        ensures
            r.enabled == match enabled_flag {
                Some(v) => lower_of(v@) == "true"@ || v@ == "1"@,
                None => false,
            },
            r.login_url == login_url,
            r.logout_url == logout_url,
    {
        let enabled = match &enabled_flag {
            Some(v) => {
                let lowered = to_lowercase(v.as_str());
                str_eq(lowered.as_str(), "true") || str_eq(v.as_str(), "1")
            },
            None => false,
        };
        AutheliaConfig { enabled, login_url, logout_url }
    }
}

/// The group list encoded in one comma-separated header value: split at
/// every comma, each entry trimmed.
pub open spec fn spec_split_groups(s: Seq<char>) -> Seq<Seq<char>>
    decreases s.len(),
{
    let i = first_index(s, ',');
    if i >= s.len() {
        seq![spec_trim(s)]
    } else {
        seq![spec_trim(s.take(i as int))] + spec_split_groups(
            s.subrange(i as int + 1, s.len() as int),
        )
    }
}

/// The primary email if the proxy sent one, else the fallback.
pub open spec fn chosen_email(
    user: Option<Seq<char>>,
    fallback: Option<Seq<char>>,
) -> Option<Seq<char>> {
    match user {
        Some(u) => Some(u),
        None => fallback,
    }
}

/// The groups field for one optional header value.
pub open spec fn spec_groups_of(groups: Option<Seq<char>>) -> Seq<Seq<char>> {
    match groups {
        Some(g) => spec_split_groups(g),
        None => Seq::empty(),
    }
}

/// If `c` occurs nowhere in `s`, its first index is `s.len()`.
proof fn lemma_first_index_absent(s: Seq<char>, c: char)
    requires
        !s.contains(c),
    ensures
        first_index(s, c) == s.len(),
    decreases s.len(),
{
    if s.len() > 0 {
        assert(s[0] != c);
        assert(!s.drop_first().contains(c)) by {
            if s.drop_first().contains(c) {
                let i = choose|i: int| 0 <= i < s.drop_first().len() && s.drop_first()[i] == c;
                assert(s[i + 1] == c);
            }
        }
        lemma_first_index_absent(s.drop_first(), c);
    }
}

/// Splits a comma-separated group list, trimming each entry.
fn split_groups(s: &str) -> (r: Vec<String>)
    ensures
        r.deep_view() == spec_split_groups(s@),
    decreases s@.len(),
{
    let n = s.unicode_len();
    match find_char(s, ',') {
        None => {
            proof {
                lemma_first_index_absent(s@, ',');
            }
            let mut v: Vec<String> = Vec::new();
            v.push(trim(s).to_owned());
            proof {
                assert(v.deep_view() =~= spec_split_groups(s@));
            }
            v
        },
        Some(i) => {
            proof {
                crate::email::lemma_first_index(s@, ',', i as int);
            }
            let head = trim(s.substring_char(0, i)).to_owned();
            proof {
                assert(s@.subrange(0, i as int) =~= s@.take(i as int));
            }
            let rest = s.substring_char(i + 1, n);
            let tail = split_groups(rest);
            let mut v: Vec<String> = Vec::new();
            v.push(head);
            let mut j: usize = 0;
            proof {
                assert(v.deep_view() =~= seq![spec_trim(s@.take(i as int))] + tail.deep_view().take(
                    0,
                ));
            }
            while j < tail.len()
                invariant
                    0 <= j <= tail@.len(),
                    tail.deep_view() == spec_split_groups(s@.subrange(i as int + 1, s@.len() as int)),
                    i < s@.len(),
                    s@[i as int] == ',',
                    forall|q: int| 0 <= q < i ==> s@[q] != ',',
                    v.deep_view() == seq![spec_trim(s@.take(i as int))] + tail.deep_view().take(
                        j as int,
                    ),
                decreases tail@.len() - j,
            {
                let ghost prev = v.deep_view();
                v.push(tail[j].clone());
                j += 1;
                proof {
                    assert(v.deep_view() =~= prev.push(tail.deep_view()[j - 1])) by {
                        assert forall|q: int| 0 <= q < v@.len() implies #[trigger] v.deep_view()[q]
                            == prev.push(tail.deep_view()[j - 1])[q] by {
                            if q < v@.len() - 1 {
                                assert(v.deep_view()[q] == v@[q].deep_view());
                                assert(prev[q] == v@[q].deep_view());
                            } else {
                                assert(v@[q] == tail@[j - 1]);
                                assert(tail.deep_view()[j - 1] == tail@[j - 1].deep_view());
                            }
                        }
                    }
                    assert(prev.push(tail.deep_view()[j - 1]) =~= seq![
                        spec_trim(s@.take(i as int)),
                    ] + tail.deep_view().take(j as int));
                }
            }
            proof {
                assert(tail.deep_view().take(tail@.len() as int) =~= tail.deep_view());
                assert(v.deep_view() =~= spec_split_groups(s@));
            }
            v
        },
    }
}

impl AutheliaUserInfo {
    /// Builds the identity from the proxy's header values: the primary email
    /// header, its fallback, the display name, and the comma-separated group
    /// list. There is no identity without an email carrying an `@`.
    pub fn from_values(
        remote_user: Option<String>,
        remote_email: Option<String>,
        remote_name: Option<String>,
        remote_groups: Option<String>,
    ) -> (r: Option<AutheliaUserInfo>)
        ensures
            match r {
                Some(info) => {
                    &&& chosen_email(remote_user.deep_view(), remote_email.deep_view()) == Some(
                        info.email@,
                    )
                    &&& info.email@.contains('@')
                    &&& info.name == remote_name
                    &&& info.groups.deep_view() == spec_groups_of(remote_groups.deep_view())
                },
                None => match chosen_email(remote_user.deep_view(), remote_email.deep_view()) {
                    Some(e) => !e.contains('@'),
                    None => true,
                },
            },
    {
        let email = match remote_user {
            Some(u) => u,
            None => match remote_email {
                Some(e) => e,
                None => {
                    return None;
                },
            },
        };
        if !contains_char(email.as_str(), '@') {
            return None;
        }
        let groups = match remote_groups {
            Some(g) => split_groups(g.as_str()),
            None => {
                let empty: Vec<String> = Vec::new();
                proof {
                    assert(empty.deep_view() =~= Seq::<Seq<char>>::empty());
                }
                empty
            },
        };
        Some(AutheliaUserInfo { email, name: remote_name, groups })
    }

    /// Whether the user is in `group`, compared without regard to ASCII
    /// case.
    pub fn is_in_group(&self, group: &str) -> (r: bool)
        ensures
            r == spec_member_of(self.groups.deep_view(), group@),
    {
        let n = self.groups.len();
        let mut j: usize = 0;
        while j < n
            invariant
                0 <= j <= n,
                n == self.groups@.len(),
                forall|q: int|
                    0 <= q < j ==> !spec_eq_ignore_ascii_case(
                        #[trigger] self.groups.deep_view()[q],
                        group@,
                    ),
            decreases n - j,
        {
            if eq_ignore_ascii_case(self.groups[j].as_str(), group) {
                proof {
                    assert(self.groups.deep_view()[j as int] == self.groups@[j as int]@);
                }
                return true;
            }
            proof {
                assert(self.groups.deep_view()[j as int] == self.groups@[j as int]@);
            }
            j += 1;
        }
        false
    }

    /// Whether the user's groups mark an administrator: any of the accepted
    /// admin group names, without regard to ASCII case.
    pub fn is_admin(&self) -> (r: bool)
        ensures
            r == (spec_member_of(self.groups.deep_view(), "admins"@) || spec_member_of(
                self.groups.deep_view(),
                "admin"@,
            ) || spec_member_of(self.groups.deep_view(), "administrators"@)),
    {
        self.is_in_group("admins") || self.is_in_group("admin") || self.is_in_group(
            "administrators",
        )
    }

    /// The name to show: the display name when the proxy sent one, else
    /// everything before the first `@` of the email.
    pub fn display_name(&self) -> (r: String)
        ensures
            r@ == spec_display_name(self.name.deep_view(), self.email@),
    {
        match &self.name {
            Some(n) => n.clone(),
            None => {
                match find_char(self.email.as_str(), '@') {
                    Some(i) => {
                        proof {
                            crate::email::lemma_first_index(self.email@, '@', i as int);
                        }
                        let prefix = self.email.as_str().substring_char(0, i);
                        proof {
                            assert(prefix@ =~= self.email@.take(i as int));
                        }
                        prefix.to_owned()
                    },
                    None => {
                        proof {
                            lemma_first_index_absent(self.email@, '@');
                            assert(self.email@.take(self.email@.len() as int) =~= self.email@);
                        }
                        self.email.clone()
                    },
                }
            },
        }
    }
}

/// Whether `group` occurs in `groups`, compared without regard to ASCII
/// case.
pub open spec fn spec_member_of(groups: Seq<Seq<char>>, group: Seq<char>) -> bool {
    exists|i: int|
        0 <= i < groups.len() && spec_eq_ignore_ascii_case(#[trigger] groups[i], group)
}

/// The name to show for an identity: the display name when one was sent,
/// else everything before the first `@` of the email (the whole email if it
/// has none).
pub open spec fn spec_display_name(name: Option<Seq<char>>, email: Seq<char>) -> Seq<char> {
    match name {
        Some(n) => n,
        None => email.take(first_index(email, '@') as int),
    }
}

} // verus!
