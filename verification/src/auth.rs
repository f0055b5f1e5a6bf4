//! The two credentials that gate the protocol's operations.

use vstd::prelude::*;

verus! {

/// The two classes of callers. Each has a secret of its own: to hold one
/// gives nothing of the other.
#[derive(Debug, Clone, Copy, PartialEq, Eq, Structural)]
pub enum Role {
    Admin,
    Worker,
}

/// The request carried no credential for the role, or a wrong one.
#[derive(Debug, Clone, Copy, PartialEq, Eq, Structural)]
pub struct Forbidden;

/// The configured secrets, one for each role.
pub struct AuthGate {
    pub admin_secret: String,
    pub worker_secret: String,
}

/// The secret that `role` must present.
pub open spec fn secret_of(gate: AuthGate, role: Role) -> Seq<char> {
    match role {
        Role::Admin => gate.admin_secret@,
        Role::Worker => gate.worker_secret@,
    }
}

/// The credential is present and is the role's secret.
pub open spec fn admitted(gate: AuthGate, role: Role, credential: Option<String>) -> bool {
    credential is Some && credential->0@ == secret_of(gate, role)
}

impl AuthGate {
    /// A gate with the given secrets.
    pub fn new(admin_secret: String, worker_secret: String) -> (g: AuthGate)
        ensures
            g.admin_secret@ == admin_secret@,
            g.worker_secret@ == worker_secret@,
    {
        AuthGate { admin_secret, worker_secret }
    }

    /// Admits a request for `role` exactly when it carries that role's
    /// secret.
    pub fn check(&self, role: Role, credential: &Option<String>) -> (r: Result<(), Forbidden>)
        ensures
            r is Ok <==> admitted(*self, role, *credential),
    {
        match credential {
            Some(given) => {
                let matches = match role {
                    Role::Admin => *given == self.admin_secret,
                    Role::Worker => *given == self.worker_secret,
                };
                if matches {
                    Ok(())
                } else {
                    Err(Forbidden)
                }
            },
            None => Err(Forbidden),
        }
    }
}

} // verus!
