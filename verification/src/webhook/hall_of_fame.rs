//! The messages that tell of changes on the leaderboard.

use vstd::prelude::*;
use crate::breakdown::{calculate_points_breakdown, split_points, splits_evenly};
use crate::models::{Hero, ANONYMOUS_HERO_NAME};
use crate::poll::hall_of_fame::Event;
use crate::text::{decimal, push_decimal, push_difference, signed_decimal};
use crate::webhook::{optional_text, Message, MessageView};
use twilight_util::builder::embed::{EmbedBuilder, EmbedFooterBuilder};
use twilight_validate::embed::EmbedValidationError;
use vstd::utf8::encode_utf8;

verus! {

/// The colour of a message on a new entry.
pub const BUGCROWD_THEME_COLOR: u32 = 15886370;

/// The colour of a message on points won.
pub const SUCCESS_COLOR: u32 = 5294200;

/// The colour of a message on points lost or an entry gone.
pub const FAILURE_COLOR: u32 = 16711680;

/// How a researcher is named in a message: by the username, linked to the
/// profile where there is one; researchers who do not show their name are
/// named as such.
pub open spec fn display_text(hero: Hero) -> Seq<char> {
    match hero.profile_url {
        Some(url) => "[**`"@ + hero.username@ + "`**]("@ + url@ + ")"@,
        None => if hero.username@ == ANONYMOUS_HERO_NAME@ {
            "**Anonymous User**"@
        } else {
            "**`"@ + hero.username@ + "`**"@
        },
    }
}

/// The findings that `points` may stand for, in brackets behind a space;
/// nothing where the points cannot be split.
pub open spec fn breakdown_note(points: i32) -> Seq<char> {
    if splits_evenly(points as int) {
        " ("@ + split_points(points as int).text() + ")"@
    } else {
        Seq::<char>::empty()
    }
}

/// What is said of a new entry.
pub open spec fn added_text(hero: Hero) -> Seq<char> {
    display_text(hero) + " was added to the leaderboard with **"@ + decimal(hero.points as nat)
        + " points"@ + breakdown_note(hero.points as i32) + "**\n-# (rank: #"@ + decimal(
        hero.rank as nat,
    ) + ")"@
}

/// What is said of an entry that is gone.
pub open spec fn removed_text(hero: Hero) -> Seq<char> {
    display_text(hero) + " was removed from the leaderboard"@
}

/// What is said of an entry whose points went down.
pub open spec fn lost_text(old: Hero, new: Hero) -> Seq<char> {
    display_text(new) + " lost **-"@ + decimal((old.points - new.points) as nat)
        + " points** and now has **"@ + decimal(new.points as nat) + " points**"@
}

/// What is said of an entry whose points went up.
pub open spec fn gained_text(old: Hero, new: Hero) -> Seq<char> {
    display_text(new) + " gained **+"@ + decimal((new.points - old.points) as nat) + " points"@
        + breakdown_note((new.points - old.points) as u64 as i32) + "** and now has **"@
        + decimal(new.points as nat) + " points**"@
}

/// The note on a change of rank: the old rank, the new one, and how many
/// places were won, behind `sign`.
pub open spec fn rank_note(old: Hero, new: Hero, sign: Seq<char>, close: Seq<char>) -> Option<
    Seq<char>,
> {
    if old.rank != new.rank {
        Some(
            "#"@ + decimal(old.rank as nat) + " -> #"@ + decimal(new.rank as nat) + " ("@ + sign
                + signed_decimal(old.rank - new.rank) + close,
        )
    } else {
        None
    }
}

/// The message that tells of `event`.
pub open spec fn event_message(event: Event) -> MessageView {
    match event {
        Event::HeroAdded(hero) => MessageView {
            color: BUGCROWD_THEME_COLOR,
            title: None,
            url: None,
            description: Some(added_text(hero)),
            fields: Seq::empty(),
            footer: None,
        },
        Event::HeroRemoved(hero) => MessageView {
            color: FAILURE_COLOR,
            title: None,
            url: None,
            description: Some(removed_text(hero)),
            fields: Seq::empty(),
            footer: Some("rank: "@ + decimal(hero.rank as nat)),
        },
        Event::HeroUpdated(old, new) => if old.points > new.points {
            MessageView {
                color: FAILURE_COLOR,
                title: None,
                url: None,
                description: Some(lost_text(old, new)),
                fields: Seq::empty(),
                footer: rank_note(old, new, "-"@, "))"@),
            }
        } else {
            MessageView {
                color: SUCCESS_COLOR,
                title: None,
                url: None,
                description: Some(gained_text(old, new)),
                fields: Seq::empty(),
                footer: rank_note(old, new, "+"@, ")"@),
            }
        },
    }
}

/// Names a researcher for a message.
pub fn display(hero: &Hero) -> (s: String)
    ensures
        s@ == display_text(*hero),
{
    match &hero.profile_url {
        Some(profile_url) => {
            let mut s = String::from_str("[**`");
            s.append(hero.username.as_str());
            s.append("`**](");
            s.append(profile_url.as_str());
            s.append(")");
            s
        },
        None => {
            if hero.username == String::from_str(ANONYMOUS_HERO_NAME) {
                String::from_str("**Anonymous User**")
            } else {
                let mut s = String::from_str("**`");
                s.append(hero.username.as_str());
                s.append("`**");
                s
            }
        },
    }
}

/// Appends the findings that `points` may stand for.
fn push_breakdown_note(out: &mut String, points: i32)
    ensures
        final(out)@ == old(out)@ + breakdown_note(points),
{
    match calculate_points_breakdown(points) {
        Some(breakdown) => {
            out.append(" (");
            out.append(breakdown.to_string().as_str());
            out.append(")");
            assert(out@ =~= old(out)@ + breakdown_note(points));
        },
        None => {
            assert(out@ =~= old(out)@ + breakdown_note(points));
        },
    }
}

/// Writes the note on a change of rank.
fn rank_change(old: &Hero, new: &Hero, sign: &str, close: &str) -> (r: Option<String>)
    ensures
        crate::webhook::optional_text(r) == rank_note(*old, *new, sign@, close@),
{
    if old.rank != new.rank {
        let mut s = String::from_str("#");
        push_decimal(&mut s, old.rank as u64);
        s.append(" -> #");
        push_decimal(&mut s, new.rank as u64);
        s.append(" (");
        s.append(sign);
        push_difference(&mut s, old.rank as u64, new.rank as u64);
        s.append(close);
        Some(s)
    } else {
        None
    }
}

/// Declares `twilight_validate::embed::EmbedValidationError`, the reason
/// with which twilight turns an embed down. Nothing is claimed of what it
/// holds.
#[verifier::external_type_specification]
#[verifier::external_body]
pub struct ExEmbedValidationError(EmbedValidationError);

/// Why an event has no message: the text it would hold is more than the
/// sink takes.
#[derive(Debug)]
pub struct RenderError {
    pub cause: EmbedValidationError,
}

/// The most bytes that the texts of a message may take in all.
pub const TOTAL_LIMIT: usize = 6000;

/// The highest colour.
pub const COLOR_LIMIT: u32 = 0xff_ff_ff;

/// The most characters of a description.
pub const DESCRIPTION_LIMIT: usize = 4096;

/// The most characters of a footer.
pub const FOOTER_LIMIT: usize = 2048;

/// Whether a message made of a colour, a description and maybe a footer is
/// one that the sink takes: the colour is an RGB value, neither text is
/// longer in characters than its limit, and both together take no more
/// bytes than the limit for the whole.
pub open spec fn within_limits(color: u32, description: Seq<char>, footer: Option<Seq<char>>) -> bool {
    let footer_text = match footer {
        Some(text) => text,
        None => Seq::<char>::empty(),
    };
    &&& encode_utf8(description).len() + encode_utf8(footer_text).len() <= TOTAL_LIMIT
    &&& color <= COLOR_LIMIT
    &&& description.len() <= DESCRIPTION_LIMIT
    &&& footer_text.len() <= FOOTER_LIMIT
}

/// Asks `twilight_validate::embed::embed` whether it accepts the embed that
/// `EmbedBuilder` and `EmbedFooterBuilder` of twilight-util make of the
/// colour, the description and, where there is one, the footer. The
/// contract restates the checks that the function makes on such an embed:
/// the byte lengths of the two texts add up to at most 6000, the colour is
/// at most `0xffffff`, the description has at most 4096 characters and the
/// footer at most 2048.
#[verifier::external_body]
fn check_limits(color: u32, description: &str, footer: &Option<String>) -> (r: Result<
    (),
    EmbedValidationError,
>)
    ensures
        r.is_ok() == within_limits(color, description@, optional_text(*footer)),
{
    let mut embed = EmbedBuilder::new().color(color).description(description).build();
    embed.footer = footer.as_ref().map(|text| EmbedFooterBuilder::new(text.as_str()).build());
    twilight_validate::embed::embed(&embed)
}

/// Whether the message that tells of `event` is one that the sink takes.
pub open spec fn renders(event: Event) -> bool {
    let message = event_message(event);
    within_limits(message.color, message.description.unwrap(), message.footer)
}

/// Writes the message that tells of `event`, before any limit is applied.
pub fn draft(event: &Event) -> (message: Message)
    ensures
        message@ == event_message(*event),
{
    match event {
        Event::HeroAdded(hero) => {
            let mut text = display(hero);
            text.append(" was added to the leaderboard with **");
            push_decimal(&mut text, hero.points);
            text.append(" points");
            push_breakdown_note(&mut text, #[verifier::truncate] (hero.points as i32));
            text.append("**\n-# (rank: #");
            push_decimal(&mut text, hero.rank as u64);
            text.append(")");
            let message = Message {
                color: BUGCROWD_THEME_COLOR,
                title: None,
                url: None,
                description: Some(text),
                fields: Vec::new(),
                footer: None,
            };
            assert(message@.fields =~= Seq::empty());
            message
        },
        Event::HeroRemoved(hero) => {
            let mut text = display(hero);
            text.append(" was removed from the leaderboard");
            let mut footer = String::from_str("rank: ");
            push_decimal(&mut footer, hero.rank as u64);
            let message = Message {
                color: FAILURE_COLOR,
                title: None,
                url: None,
                description: Some(text),
                fields: Vec::new(),
                footer: Some(footer),
            };
            assert(message@.fields =~= Seq::empty());
            message
        },
        Event::HeroUpdated(old, new) => {
            if old.points > new.points {
                let mut text = display(new);
                text.append(" lost **-");
                push_decimal(&mut text, old.points - new.points);
                text.append(" points** and now has **");
                push_decimal(&mut text, new.points);
                text.append(" points**");
                let message = Message {
                    color: FAILURE_COLOR,
                    title: None,
                    url: None,
                    description: Some(text),
                    fields: Vec::new(),
                    footer: rank_change(old, new, "-", "))"),
                };
                assert(message@.fields =~= Seq::empty());
                message
            } else {
                let gained = new.points - old.points;
                let mut text = display(new);
                text.append(" gained **+");
                push_decimal(&mut text, gained);
                text.append(" points");
                push_breakdown_note(&mut text, #[verifier::truncate] (gained as i32));
                text.append("** and now has **");
                push_decimal(&mut text, new.points);
                text.append(" points**");
                let message = Message {
                    color: SUCCESS_COLOR,
                    title: None,
                    url: None,
                    description: Some(text),
                    fields: Vec::new(),
                    footer: rank_change(old, new, "+", ")"),
                };
                assert(message@.fields =~= Seq::empty());
                message
            }
        },
    }
}

/// Writes the message that tells of `event`, provided that the sink takes
/// it.
pub fn message_for(event: &Event) -> (r: Result<Message, RenderError>)
    ensures
        r is Ok == renders(*event),
        r matches Ok(message) ==> message@ == event_message(*event),
{
    let message = draft(event);
    let checked = match &message.description {
        Some(description) => check_limits(message.color, description.as_str(), &message.footer),
        None => Ok(()),
    };
    match checked {
        Ok(()) => Ok(message),
        Err(cause) => Err(RenderError { cause }),
    }
}

} // verus!
