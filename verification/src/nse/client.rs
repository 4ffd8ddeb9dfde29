//! The bhavcopy fetcher, without the network: the ordered list of source
//! addresses for a trading day, the test a reply must pass to be accepted,
//! and the walk through the list that stops at the first accepted reply.

use vstd::prelude::*;
use vstd::string::{StringExecFns, StringSliceAdditionalSpecFns};
use vstd::utf8::{decode_utf8, encode_utf8, valid_utf8};

use crate::calendar::{
    civil_dates, day_month_year_text, is_valid_date, is_weekend_date, latest_trading_date_from,
    trading_dates_in_range, trading_days, CivilDate, TradeDate,
};
use crate::text::{
    has_multiple_lines, line_count, push_signed_decimal, push_signed_two_places,
    push_two_digits, signed_decimal, signed_two_places, trim, trimmed, two_digits,
};

verus! {

broadcast use vstd::utf8::encode_utf8_decode_utf8;

/// Number of source addresses tried for one trading day.
pub const STRATEGY_COUNT: usize = 5;

/// A decoded reply must be longer than this many bytes to be accepted.
pub const MIN_CONTENT_BYTES: usize = 100;

/// The fetcher of the exchange's end-of-day exports.
#[derive(Debug, Clone, Copy, PartialEq, Eq, Structural)]
pub struct NseClient {}

/// The one failure of a download that travels upward.
#[derive(Debug, Clone, Copy, PartialEq, Eq, Structural)]
pub enum FetchError {
    /// Every source address was tried and no reply was accepted.
    AllStrategiesFailed { attempted: usize },
}

/// The remainder of `year` by one hundred with the sign of `year`.
pub open spec fn year_in_century(year: int) -> int {
    if year >= 0 {
        year % 100
    } else {
        -((-year) % 100)
    }
}

/// The three capital letters that abbreviate a month.
pub open spec fn month_abbreviation(month: int) -> Seq<char> {
    if month == 1 {
        "JAN"@
    } else if month == 2 {
        "FEB"@
    } else if month == 3 {
        "MAR"@
    } else if month == 4 {
        "APR"@
    } else if month == 5 {
        "MAY"@
    } else if month == 6 {
        "JUN"@
    } else if month == 7 {
        "JUL"@
    } else if month == 8 {
        "AUG"@
    } else if month == 9 {
        "SEP"@
    } else if month == 10 {
        "OCT"@
    } else if month == 11 {
        "NOV"@
    } else {
        "DEC"@
    }
}

/// First source: the full bhavdata export of the archive host, named by
/// day, month and year.
pub open spec fn full_bhavdata_url(date: CivilDate) -> Seq<char> {
    "https://archives.nseindia.com/products/content/sec_bhavdata_full_"@ + two_digits(
        date.day as nat,
    ) + two_digits(date.month as nat) + signed_decimal(date.year) + ".csv"@
}

/// Second source: the price report archive, named by day, month and the
/// year within its century.
pub open spec fn price_report_url(date: CivilDate) -> Seq<char> {
    "https://www.nseindia.com/archives/equities/bhavcopy/pr/pr"@ + two_digits(date.day as nat)
        + two_digits(date.month as nat) + signed_two_places(year_in_century(date.year))
        + ".zip"@
}

/// Third source: the historical export, filed under year and month.
pub open spec fn historical_url(date: CivilDate) -> Seq<char> {
    "https://www.nseindia.com/content/historical/EQUITIES/"@ + signed_decimal(date.year) + "/"@
        + two_digits(date.month as nat) + "/cm"@ + two_digits(date.day as nat)
        + month_abbreviation(date.month) + signed_decimal(date.year) + "bhav.csv.zip"@
}

/// Fourth source: the list of listed equities, the same for every day.
pub open spec fn equity_list_url() -> Seq<char> {
    "https://www.nseindia.com/products/dynaContent/common/productsSymbolMapping/EQUITY_L.csv"@
}

/// Fifth source: the historical query of the exchange's site, for the one day.
pub open spec fn historical_api_url(date: CivilDate) -> Seq<char> {
    "https://www.nseindia.com/api/historical/cm/equity?from="@ + day_month_year_text(date)
        + "&to="@ + day_month_year_text(date)
}

/// The source addresses for a trading day, in the order they are tried.
pub open spec fn bhavcopy_urls(date: CivilDate) -> Seq<Seq<char>> {
    seq![
        full_bhavdata_url(date),
        price_report_url(date),
        historical_url(date),
        equity_list_url(),
        historical_api_url(date),
    ]
}

/// Whether decoded content passes the sanity test: not blank, longer than
/// [`MIN_CONTENT_BYTES`] bytes and of more than one line.
pub open spec fn content_acceptable(content: Seq<char>) -> bool {
    &&& trimmed(content).len() > 0
    &&& encode_utf8(content).len() > MIN_CONTENT_BYTES
    &&& line_count(content) > 1
}

/// What a gzip stream holds as text: the text of the decompressed bytes,
/// or nothing where the bytes are no gzip stream or the stream is no text.
pub uninterp spec fn gunzip_text(bytes: Seq<u8>) -> Option<Seq<char>>;

/// The text of a reply body: the bytes themselves where they are UTF-8, and
/// else what they hold as a gzip stream.
pub open spec fn body_text(body: Seq<u8>) -> Option<Seq<char>> {
    if valid_utf8(body) {
        Some(decode_utf8(body))
    } else {
        gunzip_text(body)
    }
}

/// What one source gave.
#[derive(Debug)]
pub enum StrategyReply {
    /// A reply arrived. `success` says whether its status was in the
    /// success class.
    Response { success: bool, body: Vec<u8> },
    /// No reply arrived.
    NoResponse,
}

/// A reply as mathematics sees it.
pub enum StrategyReplyView {
    Response { success: bool, body: Seq<u8> },
    NoResponse,
}

impl View for StrategyReply {
    type V = StrategyReplyView;

    open spec fn view(&self) -> StrategyReplyView {
        match self {
            StrategyReply::Response { success, body } => StrategyReplyView::Response {
                success: *success,
                body: body@,
            },
            StrategyReply::NoResponse => StrategyReplyView::NoResponse,
        }
    }
}

/// The content that a reply is accepted with: the text of its body, where
/// the status was a success and the text passes the sanity test.
pub open spec fn accepted_content(reply: StrategyReplyView) -> Option<Seq<char>> {
    match reply {
        StrategyReplyView::Response { success, body } => if success {
            match body_text(body) {
                Some(text) => if content_acceptable(text) {
                    Some(text)
                } else {
                    None
                },
                None => None,
            }
        } else {
            None
        },
        StrategyReplyView::NoResponse => None,
    }
}

/// Trusted: `str::from_utf8` of the standard library. The contract restates
/// its documentation over vstd's definition of UTF-8: the text of the bytes
/// where they are valid UTF-8, nothing where they are not.
#[verifier::external_body]
fn utf8_text(bytes: &[u8]) -> (text: Option<&str>)
    ensures
        match text {
            Some(t) => valid_utf8(bytes@) && t@ == decode_utf8(bytes@),
            None => !valid_utf8(bytes@),
        },
{
    std::str::from_utf8(bytes).ok()
}

/// Trusted: `flate2::read::GzDecoder` read to its end as text. The
/// contract only names the outcome.
#[verifier::external_body]
fn gunzip_to_text(bytes: &[u8]) -> (text: Option<String>)
    ensures
        match text {
            Some(t) => gunzip_text(bytes@) == Some(t@),
            None => gunzip_text(bytes@) is None,
        },
{
    let mut decoder = flate2::read::GzDecoder::new(bytes);
    let mut text = String::new();
    match std::io::Read::read_to_string(&mut decoder, &mut text) {
        Ok(_) => Some(text),
        Err(_) => None,
    }
}

/// The abbreviation of a month.
fn month_name(month: u32) -> (name: &'static str)
    requires
        1 <= month <= 12,
    ensures
        name@ == month_abbreviation(month as int),
{
    if month == 1 {
        "JAN"
    } else if month == 2 {
        "FEB"
    } else if month == 3 {
        "MAR"
    } else if month == 4 {
        "APR"
    } else if month == 5 {
        "MAY"
    } else if month == 6 {
        "JUN"
    } else if month == 7 {
        "JUL"
    } else if month == 8 {
        "AUG"
    } else if month == 9 {
        "SEP"
    } else if month == 10 {
        "OCT"
    } else if month == 11 {
        "NOV"
    } else {
        "DEC"
    }
}

/// Whether decoded content passes the sanity test.
pub fn is_acceptable_content(content: &str) -> (acceptable: bool)
    ensures
        acceptable == content_acceptable(content@),
{
    !trim(content).is_empty() && content.as_bytes().len() > MIN_CONTENT_BYTES
        && has_multiple_lines(content)
}

/// The text of a reply body: the bytes themselves where they are UTF-8, and
/// else what they hold as a gzip stream.
pub fn decode_body(body: &Vec<u8>) -> (text: Option<String>)
    ensures
        match text {
            Some(t) => body_text(body@) == Some(t@),
            None => body_text(body@) is None,
        },
{
    match utf8_text(body.as_slice()) {
        Some(text) => Some(String::from_str(text)),
        None => gunzip_to_text(body.as_slice()),
    }
}

/// The content that a reply is accepted with, or `None` where the reply is
/// not accepted.
pub fn evaluate_reply(reply: &StrategyReply) -> (content: Option<String>)
    ensures
        match content {
            Some(c) => accepted_content(reply@) == Some(c@),
            None => accepted_content(reply@) is None,
        },
{
    match reply {
        StrategyReply::Response { success, body } => {
            if !*success {
                return None;
            }
            match decode_body(body) {
                Some(text) => {
                    if is_acceptable_content(text.as_str()) {
                        Some(text)
                    } else {
                        None
                    }
                },
                None => None,
            }
        },
        StrategyReply::NoResponse => None,
    }
}

impl NseClient {
    /// A fetcher.
    pub fn new() -> (client: Self) {
        NseClient {  }
    }

    /// The signature that the client itself sends with every request.
    pub fn user_agent(&self) -> (agent: &'static str)
        ensures
            agent@
                == "Mozilla/5.0 (X11; Linux x86_64) AppleWebKit/537.36 (KHTML, like Gecko) Chrome/91.0.4472.124 Safari/537.36"@,
    {
        "Mozilla/5.0 (X11; Linux x86_64) AppleWebKit/537.36 (KHTML, like Gecko) Chrome/91.0.4472.124 Safari/537.36"
    }

    /// The headers of every request, name and value, in sending order.
    pub fn request_headers(&self) -> (headers: Vec<(&'static str, &'static str)>)
        ensures
            headers.len() == 6,
            headers[0].0@ == "User-Agent"@,
            headers[0].1@ == "Mozilla/5.0 (Windows NT 10.0; Win64; x64) AppleWebKit/537.36"@,
            headers[1].0@ == "Accept"@,
            headers[1].1@ == "text/html,application/xhtml+xml,application/xml;q=0.9,*/*;q=0.8"@,
            headers[2].0@ == "Accept-Language"@,
            headers[2].1@ == "en-US,en;q=0.5"@,
            headers[3].0@ == "Accept-Encoding"@,
            headers[3].1@ == "gzip, deflate"@,
            headers[4].0@ == "Connection"@,
            headers[4].1@ == "keep-alive"@,
            headers[5].0@ == "Upgrade-Insecure-Requests"@,
            headers[5].1@ == "1"@,
    {
        let mut headers: Vec<(&'static str, &'static str)> = Vec::new();
        headers.push(("User-Agent", "Mozilla/5.0 (Windows NT 10.0; Win64; x64) AppleWebKit/537.36"));
        headers.push(
            ("Accept", "text/html,application/xhtml+xml,application/xml;q=0.9,*/*;q=0.8"),
        );
        headers.push(("Accept-Language", "en-US,en;q=0.5"));
        headers.push(("Accept-Encoding", "gzip, deflate"));
        headers.push(("Connection", "keep-alive"));
        headers.push(("Upgrade-Insecure-Requests", "1"));
        headers
    }

    /// The source addresses for a trading day, in the order they are tried.
    pub fn construct_bhavcopy_urls(&self, date: TradeDate) -> (urls: Vec<String>)
        ensures
            urls.deep_view() == bhavcopy_urls(date@),
            urls.len() == STRATEGY_COUNT,
    {
        let year: i32 = date.year();
        let month: u32 = date.month();
        let day: u32 = date.day();
        let mut urls: Vec<String> = Vec::new();

        let mut first = String::from_str(
            "https://archives.nseindia.com/products/content/sec_bhavdata_full_",
        );
        push_two_digits(&mut first, day as u64);
        push_two_digits(&mut first, month as u64);
        push_signed_decimal(&mut first, year);
        first.append(".csv");
        urls.push(first);

        let in_century: i32 = if year >= 0 {
            year % 100
        } else {
            0 - ((0 - year) % 100)
        };
        let mut second = String::from_str(
            "https://www.nseindia.com/archives/equities/bhavcopy/pr/pr",
        );
        push_two_digits(&mut second, day as u64);
        push_two_digits(&mut second, month as u64);
        push_signed_two_places(&mut second, in_century);
        second.append(".zip");
        urls.push(second);

        let mut third = String::from_str("https://www.nseindia.com/content/historical/EQUITIES/");
        push_signed_decimal(&mut third, year);
        third.append("/");
        push_two_digits(&mut third, month as u64);
        third.append("/cm");
        push_two_digits(&mut third, day as u64);
        third.append(month_name(month));
        push_signed_decimal(&mut third, year);
        third.append("bhav.csv.zip");
        urls.push(third);

        urls.push(
            String::from_str(
                "https://www.nseindia.com/products/dynaContent/common/productsSymbolMapping/EQUITY_L.csv",
            ),
        );

        let written = date.format_day_month_year();
        let mut fifth = String::from_str("https://www.nseindia.com/api/historical/cm/equity?from=");
        fifth.append(written.as_str());
        fifth.append("&to=");
        fifth.append(written.as_str());
        urls.push(fifth);

        assert(urls.deep_view() =~= bhavcopy_urls(date@));
        urls
    }

    /// The first source address for a trading day.
    pub fn construct_bhavcopy_url(&self, date: TradeDate) -> (url: String)
        ensures
            url@ == full_bhavdata_url(date@),
    {
        let mut urls = self.construct_bhavcopy_urls(date);
        let ghost all = urls.deep_view();
        let first = urls.swap_remove(0);
        assert(first@ == all[0]);
        first
    }

    /// The trading days from `from` to `to`, both included: every date of
    /// the range but the Saturdays and Sundays, in ascending order.
    pub fn get_trading_dates_in_range(&self, from: TradeDate, to: TradeDate) -> (dates: Vec<
        TradeDate,
    >)
        ensures
            civil_dates(dates@) == trading_days(from@, to@),
            forall|i: int| 0 <= i < dates.len() ==> is_valid_date(#[trigger] dates[i]@),
    {
        trading_dates_in_range(from, to)
    }

    /// The most recent trading day as of the machine's clock: today, or the
    /// Friday before a weekend.
    pub fn get_latest_trading_date(&self) -> (date: TradeDate)
        ensures
            is_valid_date(date@),
            !is_weekend_date(date@),
    {
        latest_trading_date_from(TradeDate::today())
    }

    /// Starts the download for a trading day at the first source.
    pub fn begin_download(&self, date: TradeDate) -> (download: PendingDownload)
        ensures
            download.urls() == bhavcopy_urls(date@),
            download.position() == 0,
    {
        PendingDownload { urls: self.construct_bhavcopy_urls(date), index: 0 }
    }
}

/// A download that waits for the reply of one source.
#[derive(Debug)]
pub struct PendingDownload {
    urls: Vec<String>,
    index: usize,
}

/// Where a download stands.
#[derive(Debug)]
pub enum Download {
    /// The next source is to be asked.
    Pending(PendingDownload),
    /// A reply was accepted; no further source is asked.
    Accepted { strategy: usize, content: String },
    /// Every source was asked and none was accepted.
    Failed(FetchError),
}

/// A download as mathematics sees it.
pub enum DownloadView {
    Pending { urls: Seq<Seq<char>>, position: int },
    Accepted { strategy: int, content: Seq<char> },
    Failed { attempted: int },
}

impl View for Download {
    type V = DownloadView;

    open spec fn view(&self) -> DownloadView {
        match self {
            Download::Pending(pending) => DownloadView::Pending {
                urls: pending.urls(),
                position: pending.position(),
            },
            Download::Accepted { strategy, content } => DownloadView::Accepted {
                strategy: *strategy as int,
                content: content@,
            },
            Download::Failed(FetchError::AllStrategiesFailed { attempted }) => DownloadView::Failed {
                attempted: *attempted as int,
            },
        }
    }
}

/// Where a download that waits at source `position` stands after `reply`:
/// accepted with the reply's content; or waiting at the next source; or,
/// after the last source, failed.
pub open spec fn download_after(urls: Seq<Seq<char>>, position: int, reply: StrategyReplyView)
    -> DownloadView {
    match accepted_content(reply) {
        Some(content) => DownloadView::Accepted { strategy: position, content },
        None => if position + 1 < urls.len() {
            DownloadView::Pending { urls, position: position + 1 }
        } else {
            DownloadView::Failed { attempted: urls.len() as int }
        },
    }
}

/// Where a download stands after a run of replies, one for each source
/// asked. Replies after the download has ended change nothing.
pub open spec fn download_run(start: DownloadView, replies: Seq<StrategyReplyView>)
    -> DownloadView
    decreases replies.len(),
{
    if replies.len() == 0 {
        start
    } else {
        match download_run(start, replies.drop_last()) {
            DownloadView::Pending { urls, position } => download_after(
                urls,
                position,
                replies.last(),
            ),
            ended => ended,
        }
    }
}

/// The first success wins. A download over `urls` that has seen `replies`
/// stands as follows: it was accepted at the first source whose reply is
/// acceptable, with that reply's content; where no reply so far is
/// acceptable, it waits at the source after the last reply, or has failed
/// once every source has replied.
pub proof fn lemma_first_success_wins(urls: Seq<Seq<char>>, replies: Seq<StrategyReplyView>)
    requires
        urls.len() > 0,
        replies.len() <= urls.len(),
    ensures
        match download_run(DownloadView::Pending { urls, position: 0 }, replies) {
            DownloadView::Accepted { strategy, content } => {
                &&& 0 <= strategy < replies.len()
                &&& accepted_content(replies[strategy]) == Some(content)
                &&& forall|i: int| 0 <= i < strategy ==> accepted_content(#[trigger] replies[i]) is None
            },
            DownloadView::Pending { urls: remaining, position } => {
                &&& remaining == urls
                &&& position == replies.len()
                &&& replies.len() < urls.len()
                &&& forall|i: int| 0 <= i < replies.len() ==> accepted_content(#[trigger] replies[i]) is None
            },
            DownloadView::Failed { attempted } => {
                &&& attempted == urls.len()
                &&& replies.len() == urls.len()
                &&& forall|i: int| 0 <= i < replies.len() ==> accepted_content(#[trigger] replies[i]) is None
            },
        },
    decreases replies.len(),
{
    if replies.len() > 0 {
        let front = replies.drop_last();
        lemma_first_success_wins(urls, front);
        assert forall|i: int| 0 <= i < front.len() implies front[i] == replies[i] by {}
    }
}

impl PendingDownload {
    #[verifier::type_invariant]
    spec fn valid(self) -> bool {
        self.index < self.urls.len()
    }

    /// The source addresses of this download, in the order they are tried.
    pub closed spec fn urls(self) -> Seq<Seq<char>> {
        self.urls.deep_view()
    }

    /// The number of sources that have replied so far.
    pub closed spec fn position(self) -> int {
        self.index as int
    }

    /// The address to ask next.
    pub fn url(&self) -> (url: &String)
        ensures
            0 <= self.position() < self.urls().len(),
            url@ == self.urls()[self.position()],
    {
        proof {
            use_type_invariant(self);
        }
        &self.urls[self.index]
    }

    /// Number of sources asked before this one.
    pub fn strategy(&self) -> (strategy: usize)
        ensures
            strategy == self.position(),
    {
        self.index
    }

    /// Takes the reply of the source that was asked and says where the
    /// download stands: accepted, at the next source, or failed.
    pub fn on_reply(self, reply: StrategyReply) -> (next: Download)
        ensures
            next@ == download_after(self.urls(), self.position(), reply@),
    {
        proof {
            use_type_invariant(&self);
        }
        match evaluate_reply(&reply) {
            Some(content) => Download::Accepted { strategy: self.index, content },
            None => {
                if self.index + 1 < self.urls.len() {
                    Download::Pending(PendingDownload { urls: self.urls, index: self.index + 1 })
                } else {
                    Download::Failed(
                        FetchError::AllStrategiesFailed { attempted: self.urls.len() },
                    )
                }
            },
        }
    }
}

} // verus!
