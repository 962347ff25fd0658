//! The key layout of a channel: every key of a channel is the channel's name,
//! a dot, and the name of one of its seven structures.

use vstd::prelude::*;
use vstd::string::*;

verus! {

/// The structures that a channel keeps in the store.
#[derive(Clone, Copy, Debug, PartialEq, Eq, Structural)]
pub enum Key {
    /// The counter that issues message ids.
    MessageId,
    /// The hash from id to message record.
    Messages,
    /// The list of ids that are ready to be reserved.
    Waiting,
    /// The sorted set from id to the time at which it becomes ready.
    Delayed,
    /// The sorted set from id to the time at which its reservation lapses.
    Reserved,
    /// The hash from id to the number of times it was reserved.
    Attempts,
    /// The lock that guards the recovery sweep.
    MovingLock,
}

/// The name of a structure, as it stands behind the channel's name.
pub open spec fn suffix(key: Key) -> Seq<char> {
    match key {
        Key::MessageId => "message_id"@,
        Key::Messages => "messages"@,
        Key::Waiting => "waiting"@,
        Key::Delayed => "delayed"@,
        Key::Reserved => "reserved"@,
        Key::Attempts => "attempts"@,
        Key::MovingLock => "moving_lock"@,
    }
}

/// The key under which the channel `channel` keeps the structure `key`.
pub open spec fn key_text(channel: Seq<char>, key: Key) -> Seq<char> {
    channel + "."@ + suffix(key)
}

/// Whether a character has a meaning of its own in a pattern of the store:
/// the star, the question mark, the two square brackets and the backslash.
pub open spec fn is_special(c: char) -> bool {
    c == '*' || c == '?' || c == '[' || c == ']' || c == '\\'
}

/// A text as a pattern that matches that text and no other: each character
/// that has a meaning of its own in a pattern is led by a backslash.
pub open spec fn escaped(text: Seq<char>) -> Seq<char>
    decreases text.len(),
{
    if text.len() == 0 {
        Seq::empty()
    } else if is_special(text.last()) {
        escaped(text.drop_last()).push('\\').push(text.last())
    } else {
        escaped(text.drop_last()).push(text.last())
    }
}

/// What every key of the channel `channel` begins with: the channel's name
/// and a dot.
pub open spec fn prefix_text(channel: Seq<char>) -> Seq<char> {
    channel + "."@
}

/// The pattern that matches every key of the channel `channel`: the
/// channel's name, taken by the letter, a dot and a star.
pub open spec fn pattern_text(channel: Seq<char>) -> Seq<char> {
    escaped(channel) + ".*"@
}

/// Whether `text` begins with `prefix`.
pub open spec fn begins_with(text: Seq<char>, prefix: Seq<char>) -> bool {
    prefix.len() <= text.len() && text.take(prefix.len() as int) == prefix
}

/// Every key of a channel begins with the channel's prefix.
pub proof fn lemma_key_begins_with_prefix(channel: Seq<char>, key: Key)
    ensures
        begins_with(key_text(channel, key), prefix_text(channel)),
{
    assert(key_text(channel, key).take(prefix_text(channel).len() as int) =~= prefix_text(
        channel,
    ));
}

/// The name of a structure, as it stands behind the channel's name.
pub fn suffix_name(key: Key) -> (name: &'static str)
    ensures
        name@ == suffix(key),
{
    match key {
        Key::MessageId => "message_id",
        Key::Messages => "messages",
        Key::Waiting => "waiting",
        Key::Delayed => "delayed",
        Key::Reserved => "reserved",
        Key::Attempts => "attempts",
        Key::MovingLock => "moving_lock",
    }
}

/// The key under which the channel `channel` keeps the structure `key`.
pub fn key_name(channel: &str, key: Key) -> (name: String)
    ensures
        name@ == key_text(channel@, key),
{
    let mut name = String::from_str(channel);
    name.append(".");
    name.append(suffix_name(key));
    name
}

/// What every key of the channel `channel` begins with.
pub fn key_prefix(channel: &str) -> (prefix: String)
    ensures
        prefix@ == prefix_text(channel@),
{
    let mut prefix = String::from_str(channel);
    prefix.append(".");
    prefix
}

/// The pattern that matches every key of the channel `channel`.
pub fn key_pattern(channel: &str) -> (pattern: String)
    ensures
        pattern@ == pattern_text(channel@),
{
    let n = channel.unicode_len();
    let mut pattern = String::new();
    let mut i: usize = 0;
    proof {
        reveal_strlit("\\");
        assert(channel@.take(0) =~= Seq::<char>::empty());
    }
    while i < n
        invariant
            n == channel@.len(),
            i <= n,
            "\\"@ == seq!['\\'],
            pattern@ == escaped(channel@.take(i as int)),
        decreases n - i,
    {
        let c = channel.get_char(i);
        proof {
            assert(channel@.take(i as int + 1).drop_last() =~= channel@.take(i as int));
            assert(channel@.subrange(i as int, i as int + 1) =~= seq![c]);
        }
        if c == '*' || c == '?' || c == '[' || c == ']' || c == '\\' {
            pattern.append("\\");
        }
        pattern.append(channel.substring_char(i, i + 1));
        proof {
            assert(pattern@ =~= escaped(channel@.take(i as int + 1)));
        }
        i = i + 1;
    }
    proof {
        assert(channel@.take(n as int) =~= channel@);
    }
    pattern.append(".*");
    pattern
}

/// Whether `text` begins with `prefix`.
pub fn has_prefix(text: &str, prefix: &str) -> (begins: bool)
    ensures
        begins == begins_with(text@, prefix@),
{
    let n = prefix.unicode_len();
    if n > text.unicode_len() {
        return false;
    }
    let mut i: usize = 0;
    while i < n
        invariant
            n == prefix@.len(),
            n <= text@.len(),
            i <= n,
            forall|j: int| 0 <= j < i ==> text@[j] == prefix@[j],
        decreases n - i,
    {
        if text.get_char(i) != prefix.get_char(i) {
            proof {
                assert(text@.take(n as int)[i as int] != prefix@[i as int]);
            }
            return false;
        }
        i = i + 1;
    }
    proof {
        assert(text@.take(n as int) =~= prefix@);
    }
    true
}

} // verus!
