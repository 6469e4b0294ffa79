//! The commands whose work is almost all at the provider or the terminal.
use vstd::prelude::*;

verus! {

/// Shows the caller identity of the current credentials.
pub struct GCICommand;

impl GCICommand {
    /// The lines that show an identity: its ARN, account and user id.
    pub fn identity_lines(&self, arn: &str, account: &str, user_id: &str) -> (r: Vec<String>)
        ensures
            r@.len() == 3,
            r@[0]@ == "ARN:        "@ + arn@,
            r@[1]@ == "Account:    "@ + account@,
            r@[2]@ == "User:       "@ + user_id@,
    {
        let mut r: Vec<String> = Vec::new();
        r.push(String::from_str("ARN:        ").concat(arn));
        r.push(String::from_str("Account:    ").concat(account));
        r.push(String::from_str("User:       ").concat(user_id));
        r
    }
}

/// Opens a remote shell session on an instance through the provider's CLI.
pub struct SSMCommand {}

impl SSMCommand {
    pub fn new() -> (r: SSMCommand) {
        SSMCommand {}
    }

    /// The command line that starts a session on `instance_id`.
    pub fn session_command(&self, instance_id: &str) -> (r: Vec<String>)
        ensures
            r@.len() == 5,
            r@[0]@ == "aws"@,
            r@[1]@ == "ssm"@,
            r@[2]@ == "start-session"@,
            r@[3]@ == "--target"@,
            r@[4]@ == instance_id@,
    {
        let mut r: Vec<String> = Vec::new();
        r.push(String::from_str("aws"));
        r.push(String::from_str("ssm"));
        r.push(String::from_str("start-session"));
        r.push(String::from_str("--target"));
        r.push(String::from_str(instance_id));
        r
    }

    /// The status line that opens a session on `instance_id`.
    pub fn opening_text(&self, instance_id: &str) -> (r: String)
        ensures
            r@ == "Opening SSM session with "@ + instance_id@ + "\n"@,
    {
        let mut r = String::from_str("Opening SSM session with ");
        r.append(instance_id);
        r.append("\n");
        r
    }
}

} // verus!
