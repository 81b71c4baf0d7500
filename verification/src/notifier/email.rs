//! The text of a notification and the settings of its delivery.

use vstd::prelude::*;
use vstd::string::*;

verus! {

pub struct EmailNotifier;

/// Seconds after which a delivery is given up.
pub const SMTP_TIMEOUT_SECONDS: u64 = 5;

/// How the connection to the mail server is secured.
#[derive(Clone, Copy, Debug, PartialEq, Eq, Structural)]
pub enum SmtpSecurity {
    /// In the clear.
    Plain,
    /// Encrypted, or not at all.
    Required,
}

/// The text of a notification: the body, a separator, and the line that says
/// why it was sent.
pub open spec fn message_text(body: Seq<char>, page_title: Seq<char>, page_url: Seq<char>) -> Seq<
    char,
> {
    body + "\n\n--\n\n"@ + "You receive this email because an event occured on your "@ + page_title
        + " account at: "@ + page_url
}

impl EmailNotifier {
    /// Writes the text of a notification.
    pub fn message(body: &str, page_title: &str, page_url: &str) -> (message: String)
        ensures
            message@ == message_text(body@, page_title@, page_url@),
    {
        let mut message = body.to_owned();
        message.append("\n\n--\n\n");
        message.append("You receive this email because an event occured on your ");
        message.append(page_title);
        message.append(" account at: ");
        message.append(page_url);
        message
    }

    /// How the connection is secured. Where encryption is asked for and no
    /// connector for it could be made, nothing is delivered: a message is
    /// never sent in the clear against the setting.
    pub fn security(smtp_encrypt: bool, connector: bool) -> (result: Result<SmtpSecurity, ()>)
        ensures
            result == (if !smtp_encrypt {
                Ok::<SmtpSecurity, ()>(SmtpSecurity::Plain)
            } else if connector {
                Ok::<SmtpSecurity, ()>(SmtpSecurity::Required)
            } else {
                Err::<SmtpSecurity, ()>(())
            }),
    {
        if !smtp_encrypt {
            Ok(SmtpSecurity::Plain)
        } else if connector {
            Ok(SmtpSecurity::Required)
        } else {
            Err(())
        }
    }

    /// The name and password to sign in with: both, where both are set, and
    /// none where either is missing.
    pub fn credentials(smtp_username: Option<String>, smtp_password: Option<String>) -> (result:
        Option<(String, String)>)
        ensures
            result == (match (smtp_username, smtp_password) {
                (Some(username), Some(password)) => Some((username, password)),
                _ => None,
            }),
    {
        match (smtp_username, smtp_password) {
            (Some(username), Some(password)) => Some((username, password)),
            _ => None,
        }
    }
}

} // verus!
