use vstd::prelude::*;

verus! {

/// What chrono makes of a `YYYY-MM-DD` date: midnight UTC of that day in
/// seconds since the Unix epoch, or the text of its parse error.
pub uninterp spec fn date_of(s: Seq<char>) -> Result<i64, Seq<char>>;

/// A date or an error message, with the message as its text.
pub open spec fn result_view(r: Result<i64, String>) -> Result<i64, Seq<char>> {
    match r {
        Ok(v) => Ok(v),
        Err(e) => Err(e@),
    }
}

/// Relies on chrono's `NaiveDate::parse_from_str` with the format
/// `%Y-%m-%d`, taken at midnight UTC: the date in seconds since the Unix
/// epoch, or the parse error's text.
#[verifier::external_body]
fn parse_date(input: &str) -> (r: Result<i64, String>)
    ensures
        result_view(r) == date_of(input@),
{
    chrono::NaiveDate::parse_from_str(input, "%Y-%m-%d")
        .map(|date| date.and_time(chrono::NaiveTime::MIN).and_utc().timestamp())
        .map_err(|e| e.to_string())
}

/// The symbols and the inclusive date range of a request; the dates are in
/// seconds since the Unix epoch (UTC).
#[derive(Debug)]
pub struct Input {
    pub tickers: Vec<String>,
    pub start: i64,
    pub end: i64,
}

/// A request that cannot be served, with the reason.
#[derive(Debug)]
pub struct InputError {
    message: String,
}

impl InputError {
    pub closed spec fn message_spec(&self) -> Seq<char> {
        self.message@
    }

    pub fn new(message: String) -> (r: InputError)
        ensures
            r.message_spec() == message@,
    {
        InputError { message }
    }

    /// The reason.
    pub fn to_string(&self) -> (r: String)
        ensures
            r@ == self.message_spec(),
    {
        self.message.clone()
    }
}

/// The message of a date that does not parse: which date, then chrono's
/// reason.
pub open spec fn date_error(which: Seq<char>, reason: Seq<char>) -> Seq<char> {
    which + " date parse error:\n"@ + reason
}

fn date_error_message(which: &str, reason: String) -> (r: InputError)
    ensures
        r.message_spec() == date_error(which@, reason@),
{
    let mut message = String::from_str(which);
    proof {
        reveal_strlit(" date parse error:\n");
    }
    message.append(" date parse error:\n");
    message.append(reason.as_str());
    InputError::new(message)
}

impl Input {
    pub fn new(tickers: Vec<String>, start: i64, end: i64) -> (r: Input)
        ensures
            r.tickers@ == tickers@,
            r.start == start,
            r.end == end,
    {
        Input { tickers, start, end }
    }

    /// Reads the two `YYYY-MM-DD` dates of a request; fails on the first
    /// that does not parse.
    pub fn try_new(tickers: Vec<String>, start: &str, end: &str) -> (r: Result<Input, InputError>)
        ensures
            r is Ok <==> date_of(start@) is Ok && date_of(end@) is Ok,
            r matches Ok(i) ==> i.tickers@ == tickers@ && Ok::<i64, Seq<char>>(i.start) == date_of(
                start@,
            ) && Ok::<i64, Seq<char>>(i.end) == date_of(end@),
            r matches Err(e) ==> match date_of(start@) {
                Err(reason) => e.message_spec() == date_error("start"@, reason),
                Ok(_) => e.message_spec() == date_error("end"@, date_of(end@)->Err_0),
            },
    {
        let start = match parse_date(start) {
            Ok(v) => v,
            Err(reason) => {
                return Err(date_error_message("start", reason));
            },
        };
        let end = match parse_date(end) {
            Ok(v) => v,
            Err(reason) => {
                return Err(date_error_message("end", reason));
            },
        };
        Ok(Input { tickers, start, end })
    }

    /// Reads a request from the values given for its symbols and its two
    /// dates; each that is missing is an error, checked in that order.
    pub fn from_values(
        tickers: Option<Vec<String>>,
        start: Option<String>,
        end: Option<String>,
    ) -> (r: Result<Input, InputError>)
        ensures
            tickers is None ==> r is Err && r->Err_0.message_spec() == "missing ticker sybmol"@,
            tickers is Some && start is None ==> r is Err && r->Err_0.message_spec()
                == "missing start date"@,
            tickers is Some && start is Some && end is None ==> r is Err
                && r->Err_0.message_spec() == "missing end date"@,
            tickers is Some && start is Some && end is Some ==> {
                let (t, s, x) = (tickers->0, start->0, end->0);
                &&& (r is Ok <==> date_of(s@) is Ok && date_of(x@) is Ok)
                &&& r matches Ok(i) ==> i.tickers@ == t@ && Ok::<i64, Seq<char>>(i.start)
                    == date_of(s@) && Ok::<i64, Seq<char>>(i.end) == date_of(x@)
                &&& r matches Err(e) ==> match date_of(s@) {
                    Err(reason) => e.message_spec() == date_error("start"@, reason),
                    Ok(_) => e.message_spec() == date_error("end"@, date_of(x@)->Err_0),
                }
            },
    {
        let tickers = match tickers {
            Some(t) => t,
            None => {
                return Err(InputError::new(String::from_str("missing ticker sybmol")));
            },
        };
        let start = match start {
            Some(s) => s,
            None => {
                return Err(InputError::new(String::from_str("missing start date")));
            },
        };
        let end = match end {
            Some(e) => e,
            None => {
                return Err(InputError::new(String::from_str("missing end date")));
            },
        };
        Input::try_new(tickers, start.as_str(), end.as_str())
    }
}

} // verus!
