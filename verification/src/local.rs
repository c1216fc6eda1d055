//! Where a screenshot file goes: the save folder with `~` expanded, and a
//! file name made from the configured template, the local time and the
//! screenshot's sequence number.

use vstd::prelude::*;
use crate::clock::{format_time, local_now, timestamp_millis_shape};
use crate::config::AppConfig;
use crate::paths::{home_dir, join_path, path_join};
use crate::text::{decimal, decimal_text, contains_text, lemma_replace_absent, text_answers, replace_all, replace_text, strip_leading, strip_leading_char};

verus! {

/// The local time, rendered in the forms a file name template can use.
pub struct TimeStamps {
    /// `%Y%m%d_%H%M%S`
    pub timestamp: String,
    /// `%Y-%m-%d`
    pub date: String,
    /// `%H-%M-%S`
    pub time: String,
    /// `%3f`, the milliseconds
    pub millis: String,
}

/// The `%Y%m%d_%H%M%S` part of a time rendered as `%Y%m%d_%H%M%S_%3f`.
pub open spec fn stamp_timestamp(full: Seq<char>) -> Seq<char> {
    full.take(full.len() - 4)
}

/// The `%Y-%m-%d` form of a time rendered as `%Y%m%d_%H%M%S_%3f`: its year,
/// month and day with dashes between them.
pub open spec fn stamp_date(full: Seq<char>) -> Seq<char> {
    let n = full.len() as int;
    full.take(n - 15) + "-"@ + full.subrange(n - 15, n - 13) + "-"@ + full.subrange(n - 13, n - 11)
}

/// The `%H-%M-%S` form of a time rendered as `%Y%m%d_%H%M%S_%3f`.
pub open spec fn stamp_time(full: Seq<char>) -> Seq<char> {
    let n = full.len() as int;
    full.subrange(n - 10, n - 8) + "-"@ + full.subrange(n - 8, n - 6) + "-"@ + full.subrange(
        n - 6,
        n - 4,
    )
}

/// The milliseconds (`%3f`) of a time rendered as `%Y%m%d_%H%M%S_%3f`.
pub open spec fn stamp_millis(full: Seq<char>) -> Seq<char> {
    full.subrange(full.len() - 3, full.len() as int)
}

/// `st` holds the forms of the one instant that `full` renders as
/// `%Y%m%d_%H%M%S_%3f`.
pub open spec fn stamps_of(st: TimeStamps, full: Seq<char>) -> bool {
    &&& st.timestamp@ == stamp_timestamp(full)
    &&& st.date@ == stamp_date(full)
    &&& st.time@ == stamp_time(full)
    &&& st.millis@ == stamp_millis(full)
}

/// The current local time as time stamps, all from one clock reading:
/// the time is rendered once as `%Y%m%d_%H%M%S_%3f` and every stamp is
/// cut from that text.
fn current_time_stamps() -> (st: TimeStamps)
    ensures
        exists|full: Seq<char>| timestamp_millis_shape(full) && stamps_of(st, full),
{
    let now = local_now();
    let full = format_time(&now, "%Y%m%d_%H%M%S_%3f");
    let n = full.unicode_len();
    let f = full.as_str();
    let timestamp = String::from_str(f.substring_char(0, n - 4));
    let mut date = String::from_str(f.substring_char(0, n - 15));
    date.append("-");
    date.append(f.substring_char(n - 15, n - 13));
    date.append("-");
    date.append(f.substring_char(n - 13, n - 11));
    let mut time = String::from_str(f.substring_char(n - 10, n - 8));
    time.append("-");
    time.append(f.substring_char(n - 8, n - 6));
    time.append("-");
    time.append(f.substring_char(n - 6, n - 4));
    let millis = String::from_str(f.substring_char(n - 3, n));
    let st = TimeStamps { timestamp, date, time, millis };
    assert(stamps_of(st, full@));
    st
}

/// `template` with `{timestamp}`, `{date}`, `{time}`, `{seq}` and then
/// `{ms}` replaced, in that order: by the stamps `timestamp`, `date`,
/// `time`, the decimal sequence number `seq`, and the milliseconds `millis`.
pub open spec fn filename_spec(
    template: Seq<char>,
    timestamp: Seq<char>,
    date: Seq<char>,
    time: Seq<char>,
    millis: Seq<char>,
    seq: u32,
) -> Seq<char> {
    replace_all(
        replace_all(
            replace_all(
                replace_all(replace_all(template, "{timestamp}"@, timestamp), "{date}"@, date),
                "{time}"@,
                time,
            ),
            "{seq}"@,
            decimal(seq as nat),
        ),
        "{ms}"@,
        millis,
    )
}

/// The file name from `template` for the instant that `full` renders as
/// `%Y%m%d_%H%M%S_%3f` and the sequence number `seq`.
pub open spec fn filename_at(template: Seq<char>, full: Seq<char>, seq: u32) -> Seq<char> {
    filename_spec(
        template,
        stamp_timestamp(full),
        stamp_date(full),
        stamp_time(full),
        stamp_millis(full),
        seq,
    )
}

/// Fills a file name template with the given time stamps and sequence number.
pub fn fill_filename_template(template: &str, stamps: &TimeStamps, seq: u32) -> (name: String)
    ensures
        name@ == filename_spec(
            template@,
            stamps.timestamp@,
            stamps.date@,
            stamps.time@,
            stamps.millis@,
            seq,
        ),
{
    proof {
        reveal_strlit("{timestamp}");
        reveal_strlit("{date}");
        reveal_strlit("{time}");
        reveal_strlit("{seq}");
        reveal_strlit("{ms}");
    }
    let number = decimal_text(seq);
    let a = replace_text(template, "{timestamp}", stamps.timestamp.as_str());
    let b = replace_text(a.as_str(), "{date}", stamps.date.as_str());
    let c = replace_text(b.as_str(), "{time}", stamps.time.as_str());
    let d = replace_text(c.as_str(), "{seq}", number.as_str());
    replace_text(d.as_str(), "{ms}", stamps.millis.as_str())
}

/// Generates a file name from a template, the current local time and the
/// screenshot's sequence number. Supports `{timestamp}`
/// (`%Y%m%d_%H%M%S`), `{date}` (`%Y-%m-%d`), `{time}` (`%H-%M-%S`),
/// `{seq}` (the sequence number) and `{ms}` (the milliseconds).
/// Every stamp comes from one reading of the clock.
pub fn generate_filename(template: &str, seq: u32) -> (name: String)
    ensures
        exists|full: Seq<char>| timestamp_millis_shape(full) && name@ == filename_at(template@, full, seq),
{
    let stamps = current_time_stamps();
    let name = fill_filename_template(template, &stamps, seq);
    let ghost full = choose|full: Seq<char>| timestamp_millis_shape(full) && stamps_of(stamps, full);
    assert(timestamp_millis_shape(full) && name@ == filename_at(template@, full, seq));
    name
}

/// `path` with a leading `~` expanded to the home directory `home`: the
/// tildes and then the slashes after them are dropped and the rest is joined
/// onto `home`; without a home directory that is an error. A path that does
/// not start with `~` stays as it is.
pub open spec fn expand_spec(path: Seq<char>, home: Option<Seq<char>>) -> Result<
    Seq<char>,
    Seq<char>,
> {
    if path.len() > 0 && path[0] == '~' {
        match home {
            None => Err("Cannot find home directory"@),
            Some(h) => Ok(path_join(h, strip_leading(strip_leading(path, '~'), '/'))),
        }
    } else {
        Ok(path)
    }
}

/// Expands a leading `~` of `path` to the home directory `home`.
pub fn expand_path_with_home(path: &str, home: Option<&str>) -> (r: Result<String, String>)
    ensures
        text_answers(
            r,
            expand_spec(
                path@,
                match home {
                    Some(h) => Some(h@),
                    None => None,
                },
            ),
        ),
{
    if path.unicode_len() > 0 && path.get_char(0) == '~' {
        match home {
            None => Err(String::from_str("Cannot find home directory")),
            Some(h) => {
                let no_tilde = strip_leading_char(path, '~');
                let rest = strip_leading_char(no_tilde.as_str(), '/');
                Ok(join_path(h, rest.as_str()))
            },
        }
    } else {
        Ok(String::from_str(path))
    }
}

/// Expands `~` to the home directory.
pub fn expand_path(path: &str) -> (r: Result<String, String>)
    ensures
        exists|home: Option<Seq<char>>| text_answers(r, expand_spec(path@, home)),
        !(path@.len() > 0 && path@[0] == '~') ==> (r matches Ok(p) && p@ == path@),
{
    if path.unicode_len() > 0 && path.get_char(0) == '~' {
        let home = home_dir();
        match home {
            Some(h) => {
                let r = expand_path_with_home(path, Some(h.as_str()));
                assert(text_answers(r, expand_spec(path@, Some(h@))));
                r
            },
            None => {
                let r = expand_path_with_home(path, None);
                assert(text_answers(r, expand_spec(path@, None)));
                r
            },
        }
    } else {
        let r = expand_path_with_home(path, None);
        assert(text_answers(r, expand_spec(path@, None)));
        r
    }
}

/// The folder and the file that a screenshot is saved to.
pub struct ImageDestination {
    pub dir: String,
    pub file: String,
}

/// The folder and file of a destination, or why there is none.
pub open spec fn destination_view(r: Result<ImageDestination, String>) -> Result<
    (Seq<char>, Seq<char>),
    Seq<char>,
> {
    match r {
        Ok(d) => Ok((d.dir@, d.file@)),
        Err(e) => Err(e@),
    }
}

/// `d` is a destination of the screenshot numbered `seq` under `config`, for
/// some home directory and some instant rendered as `%Y%m%d_%H%M%S_%3f`:
/// the expanded default save folder and in it the file named from the
/// template, with `.png` added; or the error of expanding the save folder.
pub open spec fn destination_valid(config: AppConfig, seq: u32, d: Result<
    (Seq<char>, Seq<char>),
    Seq<char>,
>) -> bool {
    match d {
        Ok((dir, file)) => exists|home: Option<Seq<char>>, full: Seq<char>|
            {
                &&& expand_spec(config.default_save_path@, home) == Ok::<Seq<char>, Seq<char>>(dir)
                &&& timestamp_millis_shape(full)
                &&& file == path_join(dir, filename_at(config.filename_template@, full, seq) + ".png"@)
            },
        Err(e) => exists|home: Option<Seq<char>>|
            expand_spec(config.default_save_path@, home) == Err::<Seq<char>, Seq<char>>(e),
    }
}

/// The destination of the screenshot numbered `seq` under `config`: the
/// expanded default save folder, and in it the file named from the template,
/// with `.png` added. The application creates the folder and writes the file.
pub fn image_destination(config: &AppConfig, seq: u32) -> (r: Result<ImageDestination, String>)
    ensures
        destination_valid(*config, seq, destination_view(r)),
{
    let dir = expand_path(config.default_save_path.as_str())?;
    let mut name = generate_filename(config.filename_template.as_str(), seq);
    name.append(".png");
    let file = join_path(dir.as_str(), name.as_str());
    Ok(ImageDestination { dir, file })
}

/// A file name template without any of the placeholders `{timestamp}`,
/// `{date}`, `{time}`, `{seq}` and `{ms}` is used as the file name
/// unchanged, whatever the time and the sequence number.
pub proof fn law_plain_template_unchanged(
    template: Seq<char>,
    timestamp: Seq<char>,
    date: Seq<char>,
    time: Seq<char>,
    millis: Seq<char>,
    seq: u32,
)
    requires
        !contains_text(template, "{timestamp}"@),
        !contains_text(template, "{date}"@),
        !contains_text(template, "{time}"@),
        !contains_text(template, "{seq}"@),
        !contains_text(template, "{ms}"@),
    ensures
        filename_spec(template, timestamp, date, time, millis, seq) == template,
{
    reveal_strlit("{timestamp}");
    reveal_strlit("{date}");
    reveal_strlit("{time}");
    reveal_strlit("{seq}");
    reveal_strlit("{ms}");
    lemma_replace_absent(template, "{timestamp}"@, timestamp);
    lemma_replace_absent(template, "{date}"@, date);
    lemma_replace_absent(template, "{time}"@, time);
    lemma_replace_absent(template, "{seq}"@, decimal(seq as nat));
    lemma_replace_absent(template, "{ms}"@, millis);
}

} // verus!
