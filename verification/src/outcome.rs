//! What one lookup can end in: the registry's metadata of a package, the
//! errors that stand in its way, and the classified outcome that is reported.

use vstd::prelude::*;
use vstd::string::*;

verus! {

/// The metadata that the registry returns for a package.
#[derive(Debug, Clone, PartialEq, Eq)]
pub struct Crate {
    /// The package's name, as the registry spells it.
    pub name: String,
    /// The newest published version, as the registry spells it.
    pub max_version: String,
}

/// Why a lookup did not yield metadata.
#[derive(Debug, Clone, PartialEq, Eq)]
pub enum Error {
    /// The registry reports that no package has this name.
    CrateNotFound(String),
    /// Reading the response failed; the text says how.
    Io(String),
    /// The response body has not the expected shape; the text says how.
    Json(String),
    /// The request did not get through; the text says how.
    Surf(String),
    /// The registry answered with a status that is neither a success nor
    /// "not found".
    Status(u16),
}

/// The character of a decimal digit.
pub open spec fn digit(d: nat) -> char {
    if d == 0 {
        '0'
    } else if d == 1 {
        '1'
    } else if d == 2 {
        '2'
    } else if d == 3 {
        '3'
    } else if d == 4 {
        '4'
    } else if d == 5 {
        '5'
    } else if d == 6 {
        '6'
    } else if d == 7 {
        '7'
    } else if d == 8 {
        '8'
    } else {
        '9'
    }
}

/// The decimal numeral of `n`, without leading zeros.
pub open spec fn decimal(n: nat) -> Seq<char>
    decreases n,
{
    if n < 10 {
        seq![digit(n)]
    } else {
        decimal(n / 10).push(digit(n % 10))
    }
}

fn digit_str(d: u16) -> (s: &'static str)
    requires
        d < 10,
    ensures
        s@ == seq![digit(d as nat)],
{
    proof {
        reveal_strlit("0");
        reveal_strlit("1");
        reveal_strlit("2");
        reveal_strlit("3");
        reveal_strlit("4");
        reveal_strlit("5");
        reveal_strlit("6");
        reveal_strlit("7");
        reveal_strlit("8");
        reveal_strlit("9");
    }
    let s = if d == 0 {
        "0"
    } else if d == 1 {
        "1"
    } else if d == 2 {
        "2"
    } else if d == 3 {
        "3"
    } else if d == 4 {
        "4"
    } else if d == 5 {
        "5"
    } else if d == 6 {
        "6"
    } else if d == 7 {
        "7"
    } else if d == 8 {
        "8"
    } else {
        "9"
    };
    assert(s@ =~= seq![digit(d as nat)]);
    s
}

/// Writes `n` as a decimal numeral.
pub fn decimal_string(n: u16) -> (text: String)
    ensures
        text@ == decimal(n as nat),
    decreases n,
{
    if n < 10 {
        String::from_str(digit_str(n))
    } else {
        let mut text = decimal_string(n / 10);
        text.append(digit_str(n % 10));
        assert(text@ =~= decimal((n / 10) as nat).push(digit((n % 10) as nat)));
        text
    }
}

impl Error {
    /// The sentence that tells a user of this error.
    pub open spec fn message_text(&self) -> Seq<char> {
        match self {
            Error::CrateNotFound(name) => "the crate '"@ + name@ + "' doesn't exist"@,
            Error::Io(text) => text@,
            Error::Json(text) => text@,
            Error::Surf(text) => text@,
            Error::Status(code) => "unexpected status "@ + decimal(*code as nat),
        }
    }

    /// The sentence that tells a user of this error.
    pub fn message(&self) -> (text: String)
        ensures
            text@ == self.message_text(),
    {
        match self {
            Error::CrateNotFound(name) => {
                let mut text = String::from_str("the crate '");
                text.append(name.as_str());
                text.append("' doesn't exist");
                text
            },
            Error::Io(text) => text.clone(),
            Error::Json(text) => text.clone(),
            Error::Surf(text) => text.clone(),
            Error::Status(code) => {
                let mut text = String::from_str("unexpected status ");
                let numeral = decimal_string(*code);
                text.append(numeral.as_str());
                text
            },
        }
    }
}

/// How a lookup ended, apart from the name that was looked up.
pub enum Classification {
    /// The registry knows the package; this is its newest version.
    Found { max_version: Seq<char> },
    /// The registry reports that the package does not exist.
    NotFound,
    /// Whether the package exists could not be determined; this is why.
    Failed { cause: Seq<char> },
}

/// The classification that the result of one lookup stands for.
pub open spec fn classify(result: Result<Crate, Error>) -> Classification {
    match result {
        Ok(krate) => Classification::Found { max_version: krate.max_version@ },
        Err(Error::CrateNotFound(_)) => Classification::NotFound,
        Err(error) => Classification::Failed { cause: error.message_text() },
    }
}

/// The classified result of resolving one name.
#[derive(Debug, Clone, PartialEq, Eq)]
pub enum LookupOutcome {
    /// The registry knows the package.
    Found { name: String, max_version: String },
    /// The registry reports that the package does not exist.
    NotFound { name: String },
    /// Any other end of the lookup, with a description of its cause.
    Failed { name: String, cause: String },
}

impl LookupOutcome {
    /// The name that was looked up.
    pub open spec fn name_text(&self) -> Seq<char> {
        match self {
            LookupOutcome::Found { name, .. } => name@,
            LookupOutcome::NotFound { name } => name@,
            LookupOutcome::Failed { name, .. } => name@,
        }
    }

    /// How the lookup ended.
    pub open spec fn classification(&self) -> Classification {
        match self {
            LookupOutcome::Found { max_version, .. } => Classification::Found {
                max_version: max_version@,
            },
            LookupOutcome::NotFound { .. } => Classification::NotFound,
            LookupOutcome::Failed { cause, .. } => Classification::Failed { cause: cause@ },
        }
    }

    /// The name that was looked up.
    pub fn name(&self) -> (name: &String)
        ensures
            name@ == self.name_text(),
    {
        match self {
            LookupOutcome::Found { name, .. } => name,
            LookupOutcome::NotFound { name } => name,
            LookupOutcome::Failed { name, .. } => name,
        }
    }

    /// Classifies the result of the lookup of `name`: metadata makes it
    /// found, the registry's denial makes it not found, and every other error
    /// makes it failed, with the error's message as the cause. The outcome
    /// carries the name that was asked for.
    pub fn from_result(name: String, result: Result<Crate, Error>) -> (outcome: LookupOutcome)
        ensures
            outcome.name_text() == name@,
            outcome.classification() == classify(result),
    {
        match result {
            Ok(krate) => LookupOutcome::Found { name, max_version: krate.max_version },
            Err(Error::CrateNotFound(_)) => LookupOutcome::NotFound { name },
            Err(error) => {
                let cause = error.message();
                LookupOutcome::Failed { name, cause }
            },
        }
    }
}

} // verus!
