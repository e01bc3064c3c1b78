//! The text messages that are sent to the user.

use vstd::prelude::*;
use vstd::string::StringExecFns;

verus! {

/// A message to the user.
#[derive(Debug)]
pub enum Lang {
    /// What was sent is not an image.
    NotImage,
    /// The image is being processed.
    StatusWorking,
    /// The processed images follow.
    ResultSuccess,
    /// Processing failed, with a report.
    ResultGenericError(String),
}

impl Lang {
    /// The text of this message.
    pub open spec fn text(&self) -> Seq<char> {
        match self {
            Lang::NotImage => "Send me an image, please"@,
            Lang::StatusWorking => "Wowking..."@,
            Lang::ResultSuccess => "Here's your processed images"@,
            Lang::ResultGenericError(report) => "Some error occurred:\n\n"@ + report@,
        }
    }

    /// The text of this message, as a string.
    pub fn message(&self) -> (s: String)
        ensures
            s@ == self.text(),
    {
        match self {
            Lang::NotImage => String::from_str("Send me an image, please"),
            Lang::StatusWorking => String::from_str("Wowking..."),
            Lang::ResultSuccess => String::from_str("Here's your processed images"),
            Lang::ResultGenericError(report) => {
                let mut s = String::from_str("Some error occurred:\n\n");
                s.append(report.as_str());
                s
            },
        }
    }
}

} // verus!
