//! The authentication module: the extension-point-bearing module of the
//! example composition. Other modules inject banning and second-factor
//! behavior into its pre- and post-authentication hook lists.

use vstd::prelude::*;

verus! {

/// A hook consulted before credentials are compared; it can veto a login
/// attempt based on the username alone.
#[derive(Debug)]
pub enum PreAuthHook {
    /// Reject every login attempt for this exact username.
    RejectUsername(String),
}

/// The mathematical value of a [`PreAuthHook`].
pub enum PreAuthHookModel {
    RejectUsername(Seq<char>),
}

impl View for PreAuthHook {
    type V = PreAuthHookModel;

    open spec fn view(&self) -> PreAuthHookModel {
        match self {
            PreAuthHook::RejectUsername(name) => PreAuthHookModel::RejectUsername(name@),
        }
    }
}

impl PreAuthHook {
    pub fn duplicate(&self) -> (r: PreAuthHook)
        ensures
            r@ == self@,
    {
        match self {
            PreAuthHook::RejectUsername(name) => PreAuthHook::RejectUsername(name.clone()),
        }
    }
}

/// A hook consulted after credentials have been accepted; it can replace the
/// plain success response, e.g. by redirecting to a second factor.
#[derive(Debug)]
pub enum PostAuthHook {
    /// For this exact username, answer with a redirect to the given location.
    RedirectUsername(String, String),
}

/// The mathematical value of a [`PostAuthHook`].
pub enum PostAuthHookModel {
    RedirectUsername(Seq<char>, Seq<char>),
}

impl View for PostAuthHook {
    type V = PostAuthHookModel;

    open spec fn view(&self) -> PostAuthHookModel {
        match self {
            PostAuthHook::RedirectUsername(name, loc) => PostAuthHookModel::RedirectUsername(
                name@,
                loc@,
            ),
        }
    }
}

impl PostAuthHook {
    pub fn duplicate(&self) -> (r: PostAuthHook)
        ensures
            r@ == self@,
    {
        match self {
            PostAuthHook::RedirectUsername(name, loc) => PostAuthHook::RedirectUsername(
                name.clone(),
                loc.clone(),
            ),
        }
    }
}

/// The authentication module: two ordered hook lists, both filled in by
/// injectors from other modules during the build phase.
pub struct AuthModule {
    pub pre_auth: Vec<PreAuthHook>,
    pub post_auth: Vec<PostAuthHook>,
}

/// The mathematical value of an [`AuthModule`].
pub struct AuthModuleModel {
    pub pre_auth: Seq<PreAuthHookModel>,
    pub post_auth: Seq<PostAuthHookModel>,
}

impl View for AuthModule {
    type V = AuthModuleModel;

    open spec fn view(&self) -> AuthModuleModel {
        AuthModuleModel {
            pre_auth: self.pre_auth@.map_values(|h: PreAuthHook| h@),
            post_auth: self.post_auth@.map_values(|h: PostAuthHook| h@),
        }
    }
}

/// The error outcomes of a login attempt.
#[derive(Clone, Copy, Debug, PartialEq, Eq, Structural)]
pub enum AuthError {
    /// A pre-authentication hook vetoed the attempt.
    NotAuthorized,
    /// The credentials did not match a known user.
    InvalidCredentials,
}

/// The successful outcomes of a login attempt.
pub enum LoginResponse {
    /// Plain success.
    Success,
    /// A post-authentication hook redirected to this location.
    Redirect(String),
}

/// The mathematical value of a [`LoginResponse`].
pub enum LoginResponseModel {
    Success,
    Redirect(Seq<char>),
}

impl View for LoginResponse {
    type V = LoginResponseModel;

    open spec fn view(&self) -> LoginResponseModel {
        match self {
            LoginResponse::Success => LoginResponseModel::Success,
            LoginResponse::Redirect(loc) => LoginResponseModel::Redirect(loc@),
        }
    }
}

/// The usernames whose credentials (username == password) are accepted.
pub open spec fn known_username(u: Seq<char>) -> bool {
    u == "admin"@ || u == "manager"@ || u == "user"@ || u == "modir"@
}

/// Whether some pre-authentication hook vetoes username `u`.
pub open spec fn pre_rejects(hooks: Seq<PreAuthHookModel>, u: Seq<char>) -> bool {
    exists|i: int| 0 <= i < hooks.len() && hooks[i] == PreAuthHookModel::RejectUsername(u)
}

/// The location of the first post-authentication hook that redirects
/// username `u`, if any.
pub open spec fn first_redirect(hooks: Seq<PostAuthHookModel>, u: Seq<char>) -> Option<Seq<char>>
    decreases hooks.len(),
{
    if hooks.len() == 0 {
        None
    } else {
        match hooks[0] {
            PostAuthHookModel::RedirectUsername(name, loc) => if name == u {
                Some(loc)
            } else {
                first_redirect(hooks.skip(1), u)
            },
        }
    }
}

/// What a login attempt returns: a pre-authentication veto wins over
/// everything (it is checked before the credentials are compared); then the
/// credentials must match a known user; then the first matching
/// post-authentication redirect, if any, replaces the plain success.
pub open spec fn spec_login(m: AuthModuleModel, u: Seq<char>, p: Seq<char>) -> Result<
    LoginResponseModel,
    AuthError,
> {
    if pre_rejects(m.pre_auth, u) {
        Err(AuthError::NotAuthorized)
    } else if u == p && known_username(u) {
        match first_redirect(m.post_auth, u) {
            Some(loc) => Ok(LoginResponseModel::Redirect(loc)),
            None => Ok(LoginResponseModel::Success),
        }
    } else {
        Err(AuthError::InvalidCredentials)
    }
}

/// The mathematical value of a login result.
pub open spec fn login_result_view(r: Result<LoginResponse, AuthError>) -> Result<
    LoginResponseModel,
    AuthError,
> {
    match r {
        Ok(resp) => Ok(resp@),
        Err(e) => Err(e),
    }
}

/// Equality of string slices, specified over their views.
pub(crate) fn str_eq(a: &str, b: &str) -> (r: bool)
    ensures
        r == (a@ == b@),
{
    a.to_owned() == b.to_owned()
}

impl AuthModule {
    /// A fresh authentication module with empty hook lists.
    pub fn new() -> (r: AuthModule)
        ensures
            r@.pre_auth == Seq::<PreAuthHookModel>::empty(),
            r@.post_auth == Seq::<PostAuthHookModel>::empty(),
    {
        let r = AuthModule { pre_auth: Vec::new(), post_auth: Vec::new() };
        proof {
            assert(r@.pre_auth =~= Seq::<PreAuthHookModel>::empty());
            assert(r@.post_auth =~= Seq::<PostAuthHookModel>::empty());
        }
        r
    }

    /// Append a hook to the pre-authentication list.
    pub fn on_pre_auth(&mut self, h: PreAuthHook)
        ensures
            final(self)@.pre_auth == old(self)@.pre_auth.push(h@),
            final(self)@.post_auth == old(self)@.post_auth,
    {
        self.pre_auth.push(h);
        proof {
            assert(self@.pre_auth =~= old(self)@.pre_auth.push(h@));
        }
    }

    /// Append a hook to the post-authentication list.
    pub fn on_post_auth(&mut self, h: PostAuthHook)
        ensures
            final(self)@.post_auth == old(self)@.post_auth.push(h@),
            final(self)@.pre_auth == old(self)@.pre_auth,
    {
        self.post_auth.push(h);
        proof {
            assert(self@.post_auth =~= old(self)@.post_auth.push(h@));
        }
    }

    /// Run a login attempt through the wired hook pipeline.
    pub fn login(&self, username: &str, password: &str) -> (r: Result<LoginResponse, AuthError>)
        ensures
            login_result_view(r) == spec_login(self@, username@, password@),
    {
        let ghost u = username@;
        let mut i: usize = 0;
        while i < self.pre_auth.len()
            invariant
                0 <= i <= self.pre_auth.len(),
                forall|j: int|
                    0 <= j < i ==> self@.pre_auth[j] != PreAuthHookModel::RejectUsername(u),
                u == username@,
            decreases self.pre_auth.len() - i,
        {
            match &self.pre_auth[i] {
                PreAuthHook::RejectUsername(name) => {
                    if str_eq(username, name.as_str()) {
                        proof {
                            assert(self@.pre_auth[i as int] == PreAuthHookModel::RejectUsername(u));
                            assert(pre_rejects(self@.pre_auth, u));
                        }
                        return Err(AuthError::NotAuthorized);
                    }
                },
            }
            i += 1;
        }
        proof {
            assert(!pre_rejects(self@.pre_auth, u));
        }
        if !(str_eq(username, password) && (str_eq(username, "admin") || str_eq(username, "manager")
            || str_eq(username, "user") || str_eq(username, "modir"))) {
            return Err(AuthError::InvalidCredentials);
        }
        let mut j: usize = 0;
        proof {
            assert(self@.post_auth.skip(0) =~= self@.post_auth);
        }
        while j < self.post_auth.len()
            invariant
                0 <= j <= self.post_auth.len(),
                first_redirect(self@.post_auth, u) == first_redirect(
                    self@.post_auth.skip(j as int),
                    u,
                ),
                u == username@,
                !pre_rejects(self@.pre_auth, u),
                username@ == password@ && known_username(u),
            decreases self.post_auth.len() - j,
        {
            match &self.post_auth[j] {
                PostAuthHook::RedirectUsername(name, loc) => {
                    if str_eq(username, name.as_str()) {
                        proof {
                            assert(self@.post_auth.skip(j as int)[0] == self@.post_auth[j as int]);
                            assert(first_redirect(self@.post_auth.skip(j as int), u) == Some(
                                loc@,
                            ));
                        }
                        return Ok(LoginResponse::Redirect(loc.clone()));
                    } else {
                        proof {
                            assert(self@.post_auth.skip(j as int)[0] == self@.post_auth[j as int]);
                            assert(self@.post_auth.skip(j as int).skip(1) =~= self@.post_auth.skip(
                                j as int + 1,
                            ));
                        }
                    }
                },
            }
            j += 1;
        }
        proof {
            assert(self@.post_auth.skip(self.post_auth.len() as int) =~= Seq::<
                PostAuthHookModel,
            >::empty());
        }
        Ok(LoginResponse::Success)
    }
}

} // verus!
