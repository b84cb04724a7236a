//! The display fields of a notification and the labels they use.
use vstd::prelude::*;
use vstd::string::{StrSliceExecFns, StringExecFns};

verus! {

/// The zero-width space that marks an empty cell of a notification.
pub open spec fn blank() -> Seq<char> {
    seq!['\u{200B}']
}

/// An empty inline field, used to pad a row of fields.
pub fn blank_field() -> (r: (&'static str, &'static str, bool))
    ensures
        r.0@ == blank(),
        r.1@ == blank(),
        r.2,
{
    proof {
        reveal_strlit("\u{200B}");
    }
    ("\u{200B}", "\u{200B}", true)
}

/// How a field value is shown: blank cells as they are, anything else as code.
pub open spec fn rendered(value: Seq<char>) -> Seq<char> {
    if value == blank() {
        value
    } else {
        seq!['`'] + value + seq!['`']
    }
}

/// Renders a field value for display.
pub fn render_value(value: &str) -> (r: String)
    ensures
        r@ == rendered(value@),
{
    proof {
        reveal_strlit("`");
    }
    if value.unicode_len() == 1 && value.get_char(0) == '\u{200B}' {
        assert(value@ =~= blank());
        return String::from_str(value);
    }
    assert(value@ != blank());
    let mut r = String::from_str("`");
    r.append(value);
    r.append("`");
    r
}

/// One display field of a notification.
pub struct Field {
    pub title: String,
    pub value: String,
    pub inline: bool,
}

/// Builds the fields of a new notification: the event and the bot's name, a
/// blank cell, the caller's own fields, then the machine's load, memory use
/// and shard count; every value is rendered.
pub fn notification_fields(
    event: &str,
    bot_user: &str,
    extra_fields: &Vec<(String, String, bool)>,
    cpu_usage: &str,
    memory_usage: &str,
    shard_count: &str,
) -> (r: Vec<Field>)
    ensures
        r@.len() == extra_fields@.len() + 6,
        r@[0].title@ == "Event"@ && r@[0].value@ == rendered(event@) && r@[0].inline,
        r@[1].title@ == "Bot User"@ && r@[1].value@ == rendered(bot_user@) && r@[1].inline,
        r@[2].title@ == blank() && r@[2].value@ == blank() && r@[2].inline,
        forall|i: int| 0 <= i < extra_fields@.len() ==> {
            &&& (#[trigger] r@[i + 3]).title@ == extra_fields@[i].0@
            &&& r@[i + 3].value@ == rendered(extra_fields@[i].1@)
            &&& r@[i + 3].inline == extra_fields@[i].2
        },
        ({
            let n = extra_fields@.len() as int;
            &&& r@[n + 3].title@ == "CPU Usage (5 minutes)"@ && r@[n + 3].value@ == rendered(cpu_usage@) && r@[n + 3].inline
            &&& r@[n + 4].title@ == "System Memory Usage"@ && r@[n + 4].value@ == rendered(memory_usage@) && r@[n + 4].inline
            &&& r@[n + 5].title@ == "Shard Count"@ && r@[n + 5].value@ == rendered(shard_count@) && r@[n + 5].inline
        }),
{
    let mut r: Vec<Field> = Vec::new();
    r.push(Field { title: String::from_str("Event"), value: render_value(event), inline: true });
    r.push(Field { title: String::from_str("Bot User"), value: render_value(bot_user), inline: true });
    let (t, v, inline) = blank_field();
    r.push(Field { title: String::from_str(t), value: render_value(v), inline });
    let mut i: usize = 0;
    while i < extra_fields.len()
        invariant
            0 <= i <= extra_fields@.len(),
            r@.len() == i + 3,
            r@[0].title@ == "Event"@ && r@[0].value@ == rendered(event@) && r@[0].inline,
            r@[1].title@ == "Bot User"@ && r@[1].value@ == rendered(bot_user@) && r@[1].inline,
            r@[2].title@ == blank() && r@[2].value@ == blank() && r@[2].inline,
            forall|k: int| 0 <= k < i ==> {
                &&& (#[trigger] r@[k + 3]).title@ == extra_fields@[k].0@
                &&& r@[k + 3].value@ == rendered(extra_fields@[k].1@)
                &&& r@[k + 3].inline == extra_fields@[k].2
            },
        decreases extra_fields@.len() - i,
    {
        let (title, value, inline) = &extra_fields[i];
        r.push(Field { title: title.clone(), value: render_value(value.as_str()), inline: *inline });
        i = i + 1;
    }
    r.push(Field { title: String::from_str("CPU Usage (5 minutes)"), value: render_value(cpu_usage), inline: true });
    r.push(Field { title: String::from_str("System Memory Usage"), value: render_value(memory_usage), inline: true });
    r.push(Field { title: String::from_str("Shard Count"), value: render_value(shard_count), inline: true });
    r
}

/// The decimal digit for `d` (below ten).
pub open spec fn digit(d: int) -> char {
    if d == 0 { '0' } else if d == 1 { '1' } else if d == 2 { '2' } else if d == 3 { '3' }
    else if d == 4 { '4' } else if d == 5 { '5' } else if d == 6 { '6' } else if d == 7 { '7' }
    else if d == 8 { '8' } else { '9' }
}

/// The decimal numeral of `n`, without leading zeros.
pub open spec fn decimal(n: nat) -> Seq<char>
    decreases n,
{
    if n < 10 {
        seq![digit(n as int)]
    } else {
        decimal(n / 10) + seq![digit((n % 10) as int)]
    }
}

fn digit_str(d: u64) -> (r: &'static str)
    requires
        d < 10,
    ensures
        r@ == seq![digit(d as int)],
{
    proof {
        reveal_strlit("0");
        reveal_strlit("1");
        reveal_strlit("2");
        reveal_strlit("3");
        reveal_strlit("4");
        reveal_strlit("5");
        reveal_strlit("6");
        reveal_strlit("7");
        reveal_strlit("8");
        reveal_strlit("9");
    }
    if d == 0 { "0" } else if d == 1 { "1" } else if d == 2 { "2" } else if d == 3 { "3" }
    else if d == 4 { "4" } else if d == 5 { "5" } else if d == 6 { "6" } else if d == 7 { "7" }
    else if d == 8 { "8" } else { "9" }
}

fn append_decimal(s: &mut String, n: u64)
    ensures
        final(s)@ == old(s)@ + decimal(n as nat),
    decreases n,
{
    if n >= 10 {
        append_decimal(s, n / 10);
    }
    s.append(digit_str(n % 10));
    proof {
        assert(old(s)@ + decimal(n as nat) =~= if n >= 10 {
            old(s)@ + decimal((n / 10) as nat) + seq![digit((n % 10) as int)]
        } else {
            old(s)@ + seq![digit((n % 10) as int)]
        });
    }
}

/// The footer of a notification that has been seen `occurrences` times.
pub open spec fn footer_text(occurrences: u64) -> Seq<char> {
    "This error has occurred "@ + decimal(occurrences as nat) + if occurrences == 1 {
        " time!"@
    } else {
        " times!"@
    }
}

/// Writes the occurrence counter shown in a notification's footer.
pub fn occurrence_footer(occurrences: u64) -> (r: String)
    ensures
        r@ == footer_text(occurrences),
{
    let mut r = String::from_str("This error has occurred ");
    append_decimal(&mut r, occurrences);
    if occurrences == 1 {
        r.append(" time!");
    } else {
        r.append(" times!");
    }
    r
}

/// The kind of channel a failure happened in.
#[derive(Clone, Copy, Debug, PartialEq, Eq, Structural)]
pub enum ChannelKind {
    Text,
    News,
    Voice,
    NewsThread,
    PublicThread,
    PrivateThread,
    OtherGuildChannel,
    Private,
    Category,
    Unknown,
}

/// The label shown for a kind of channel.
pub open spec fn channel_label(kind: ChannelKind) -> Seq<char> {
    match kind {
        ChannelKind::Text | ChannelKind::News => "Text Channel"@,
        ChannelKind::Voice => "Voice Channel"@,
        ChannelKind::NewsThread => "News Thread Channel"@,
        ChannelKind::PublicThread => "Public Thread Channel"@,
        ChannelKind::PrivateThread => "Private Thread Channel"@,
        ChannelKind::Private => "Private Channel"@,
        ChannelKind::Category => "Category Channel??"@,
        ChannelKind::OtherGuildChannel | ChannelKind::Unknown => "Unknown Channel Type"@,
    }
}

/// Names a kind of channel for display.
pub fn channel_type(kind: ChannelKind) -> (r: &'static str)
    ensures
        r@ == channel_label(kind),
{
    match kind {
        ChannelKind::Text | ChannelKind::News => "Text Channel",
        ChannelKind::Voice => "Voice Channel",
        ChannelKind::NewsThread => "News Thread Channel",
        ChannelKind::PublicThread => "Public Thread Channel",
        ChannelKind::PrivateThread => "Private Thread Channel",
        ChannelKind::Private => "Private Channel",
        ChannelKind::Category => "Category Channel??",
        ChannelKind::OtherGuildChannel | ChannelKind::Unknown => "Unknown Channel Type",
    }
}

} // verus!
