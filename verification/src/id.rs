//! Identifiers: a UUID with a human-readable prefix that names its kind.
//!
//! Each layer mints its own ids; the shape is the same everywhere. An id is
//! shown as `"<prefix>_<uuid>"` and read back from that or from the bare UUID.
use crate::text::{join, join3, strip_prefix, stripped};
use vstd::arithmetic::power::pow;
use vstd::prelude::*;

verus! {

/// The hexadecimal digit of value `d`, in small letters.
pub open spec fn hex_digit(d: int) -> char {
    if d < 10 {
        (48 + d) as char
    } else {
        (87 + d) as char
    }
}

/// The `i`-th of the 32 hexadecimal digits of a UUID, from the left.
pub open spec fn uuid_digit(uuid: u128, i: int) -> char {
    hex_digit((uuid as int / pow(16, (31 - i) as nat)) % 16)
}

/// The usual text of a UUID: 32 hexadecimal digits in groups of 8, 4, 4, 4 and
/// 12, with hyphens between them.
pub open spec fn hyphenated(uuid: u128) -> Seq<char> {
    Seq::new(
        36,
        |i: int|
            if i == 8 || i == 13 || i == 18 || i == 23 {
                '-'
            } else if i < 8 {
                uuid_digit(uuid, i)
            } else if i < 13 {
                uuid_digit(uuid, i - 1)
            } else if i < 18 {
                uuid_digit(uuid, i - 2)
            } else if i < 23 {
                uuid_digit(uuid, i - 3)
            } else {
                uuid_digit(uuid, i - 4)
            },
    )
}

/// The version field of a UUID.
pub open spec fn uuid_version(uuid: u128) -> u128 {
    (uuid >> 76) & 0xf
}

/// The variant field of a UUID.
pub open spec fn uuid_variant(uuid: u128) -> u128 {
    (uuid >> 62) & 0x3
}

/// `Uuid::now_v7` of the crate `uuid`, as a number: a UUID of version 7, made of
/// the time and random bits. Which one is left open. The clock must not be set before
/// the Unix epoch.
#[verifier::external_body]
fn fresh_uuid() -> (r: u128)
    ensures
        uuid_version(r) == 7,
        uuid_variant(r) == 2,
{
    uuid::Uuid::now_v7().as_u128()
}

/// `Display` of the crate `uuid`: the hyphenated text.
#[verifier::external_body]
fn uuid_text(uuid: u128) -> (r: String)
    ensures
        r@ == hyphenated(uuid),
{
    uuid::Uuid::from_u128(uuid).to_string()
}

/// What `Uuid::parse_str` makes of a text: a UUID, or the text of its error.
pub uninterp spec fn parsed_uuid(text: Seq<char>) -> Result<u128, Seq<char>>;

/// `Uuid::parse_str` of the crate `uuid`: a UUID as a number, or the text of the
/// error, a function of the text alone. Among the forms that it reads is the
/// hyphenated one.
#[verifier::external_body]
fn parse_uuid(text: &str) -> (r: Result<u128, String>)
    ensures
        match r {
            Ok(uuid) => parsed_uuid(text@) == Ok::<u128, Seq<char>>(uuid),
            Err(error) => parsed_uuid(text@) == Err::<u128, Seq<char>>(error@),
        },
        forall|uuid: u128|
            text@ == #[trigger] hyphenated(uuid) ==> r is Ok && r->Ok_0 == uuid,
{
    uuid::Uuid::parse_str(text).map(|u| u.as_u128()).map_err(|e| e.to_string())
}

/// An identifier of the kind that `prefix` names.
#[derive(Clone, Copy, Debug, Eq, Hash, Ord, PartialEq, PartialOrd)]
pub struct LayerId {
    pub prefix: &'static str,
    pub uuid: u128,
}

/// The text of an id.
pub open spec fn id_text(prefix: Seq<char>, uuid: u128) -> Seq<char> {
    prefix + "_"@ + hyphenated(uuid)
}

/// The UUID part of the text of an id: what is left behind the prefix and the
/// underscore, or all of it when it does not start with them.
pub open spec fn uuid_part(prefix: Seq<char>, text: Seq<char>) -> Seq<char> {
    match stripped(text, prefix + "_"@) {
        Some(rest) => rest,
        None => text,
    }
}

impl LayerId {
    /// A fresh id.
    pub fn new(prefix: &'static str) -> (r: LayerId)
        ensures
            r.prefix@ == prefix@,
            uuid_version(r.uuid) == 7,
            uuid_variant(r.uuid) == 2,
    {
        LayerId { prefix, uuid: fresh_uuid() }
    }

    /// The id of a given UUID.
    pub fn from_uuid(prefix: &'static str, uuid: u128) -> (r: LayerId)
        ensures
            r.prefix@ == prefix@,
            r.uuid == uuid,
    {
        LayerId { prefix, uuid }
    }

    /// The UUID of the id.
    pub fn as_uuid(&self) -> (r: u128)
        ensures
            r == self.uuid,
    {
        self.uuid
    }

    /// The prefix of the id.
    pub fn prefix(&self) -> (r: &'static str)
        ensures
            r@ == self.prefix@,
    {
        self.prefix
    }

    /// The id as it is shown: `"<prefix>_<uuid>"`.
    pub fn display(&self) -> (r: String)
        ensures
            r@ == id_text(self.prefix@, self.uuid),
    {
        join3(self.prefix, "_", uuid_text(self.uuid).as_str())
    }

    /// Reads an id from the prefixed or the bare UUID. What an id shows, and its
    /// bare UUID, read back as that id, whatever the prefix.
    pub fn parse(prefix: &'static str, text: &str) -> (r: Result<LayerId, String>)
        ensures
            match r {
                Ok(id) => id.prefix@ == prefix@ && parsed_uuid(uuid_part(prefix@, text@)) == Ok::<
                    u128,
                    Seq<char>,
                >(id.uuid),
                Err(error) => parsed_uuid(uuid_part(prefix@, text@)) == Err::<u128, Seq<char>>(
                    error@,
                ),
            },
            forall|uuid: u128|
                text@ == #[trigger] id_text(prefix@, uuid) ==> r is Ok && r->Ok_0.uuid == uuid,
            forall|uuid: u128|
                text@ == #[trigger] hyphenated(uuid) ==> r is Ok && r->Ok_0.uuid == uuid,
    {
        let mark: String = join(prefix, "_");
        let part: &str = match strip_prefix(text, mark.as_str()) {
            Some(rest) => rest,
            None => text,
        };
        proof {
            assert forall|uuid: u128| text@ == #[trigger] id_text(prefix@, uuid) implies part@
                == hyphenated(uuid) by {
                law_shown_ids_give_their_uuid_back(prefix@, uuid);
            }
            assert forall|uuid: u128| text@ == #[trigger] hyphenated(uuid) implies part@
                == hyphenated(uuid) by {
                law_shown_ids_give_their_uuid_back(prefix@, uuid);
            }
        }
        match parse_uuid(part) {
            Ok(uuid) => Ok(LayerId { prefix, uuid }),
            Err(error) => Err(error),
        }
    }
}

/// The UUID part of what an id shows is the text of its UUID, and so is the UUID
/// part of that text itself: a UUID holds no underscore, so no prefix is ever
/// mistaken for a part of it.
pub proof fn law_shown_ids_give_their_uuid_back(prefix: Seq<char>, uuid: u128)
    ensures
        uuid_part(prefix, id_text(prefix, uuid)) == hyphenated(uuid),
        uuid_part(prefix, hyphenated(uuid)) == hyphenated(uuid),
{
    reveal_strlit("_");
    let mark = prefix + "_"@;
    crate::text::law_strip_undoes_prepend(mark, hyphenated(uuid));
    if stripped(hyphenated(uuid), mark) is Some {
        let k = prefix.len() as int;
        assert(hyphenated(uuid).take(mark.len() as int)[k] == mark[k]);
        assert(hyphenated(uuid)[k] == '_');
        assert(forall|d: int| 0 <= d < 16 ==> #[trigger] hex_digit(d) != '_');
    }
}

/// What an id shows is its prefix, an underscore and its UUID; the UUID part of a text
/// is what stands behind the prefix and an underscore, and all of a text that does not
/// start with them.
pub proof fn law_uuid_parts_stand_behind_the_prefix(
    prefix: Seq<char>,
    rest: Seq<char>,
    text: Seq<char>,
    uuid: u128,
)
    ensures
        stripped(id_text(prefix, uuid), prefix) == Some("_"@ + hyphenated(uuid)),
        uuid_part(prefix, prefix + "_"@ + rest) == rest,
        (forall|r: Seq<char>| text != #[trigger] (prefix + "_"@ + r)) ==> uuid_part(prefix, text)
            == text,
{
    assert(id_text(prefix, uuid) =~= prefix + ("_"@ + hyphenated(uuid)));
    crate::text::law_strip_undoes_prepend(prefix, "_"@ + hyphenated(uuid));
    crate::text::law_strip_undoes_prepend(prefix + "_"@, rest);
    crate::text::law_strip_finds_every_prefix(text, prefix + "_"@);
    if stripped(text, prefix + "_"@) is Some {
        let r = stripped(text, prefix + "_"@)->0;
        assert(text == prefix + "_"@ + r);
    }
}

} // verus!
