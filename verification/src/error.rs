use vstd::prelude::*;

verus! {

/// The ways in which a helper of this library can fail.
pub enum ZomeUtilsError {
    /// A link tag does not hold UTF-8 text.
    TagNotUtf8,
    /// A value could not be deserialized; the text says why.
    Deserialize(String),
    /// A component's bytes are not UTF-32 text; the text says why.
    ComponentText(String),
    /// No record was found at the given hash.
    NoRecord,
    /// The record holds no entry.
    NoEntry,
    /// The record's action has no entry hash.
    NoEntryHash,
    /// The entry at the given hash is not an app entry.
    NoAppEntry,
    /// The entry definition is not that of an app entry.
    NotAnAppEntry,
    /// The conductor found no details for the hash.
    RecordNotFound,
    /// The details are those of an entry where a record's were expected.
    MalformedDetails,
    /// The record at the given hash holds no entry.
    NoEntryAtHash,
    /// The hash is an external one, not one of the DHT.
    ExternalLinkType,
    /// The zome is not part of the DNA.
    UnknownZome,
    /// The variant is not among the enum's variants.
    UnknownVariant,
    /// No variant has the given entry definition index.
    UnknownEntryDefIndex(u8),
    /// The local chain does not hold exactly one record with the entry hash.
    RecordNotFoundAtEntryHash,
    /// The local chain holds no record with the action hash.
    RecordNotFoundAtActionHash,
}

/// The decimal digit character of a number below 10.
pub open spec fn digit_char(d: nat) -> char {
    if d == 0 { '0' }
    else if d == 1 { '1' }
    else if d == 2 { '2' }
    else if d == 3 { '3' }
    else if d == 4 { '4' }
    else if d == 5 { '5' }
    else if d == 6 { '6' }
    else if d == 7 { '7' }
    else if d == 8 { '8' }
    else { '9' }
}

/// The decimal text of a number, without leading zeros.
pub open spec fn decimal(n: nat) -> Seq<char>
    decreases n,
{
    if n < 10 {
        seq![digit_char(n)]
    } else {
        decimal(n / 10) + seq![digit_char(n % 10)]
    }
}

/// The text of one decimal digit.
fn digit_text(d: u8) -> (s: &'static str)
    requires
        d < 10,
    ensures
        s@ == seq![digit_char(d as nat)],
{
    match d {
        0 => { proof { reveal_strlit("0"); } "0" },
        1 => { proof { reveal_strlit("1"); } "1" },
        2 => { proof { reveal_strlit("2"); } "2" },
        3 => { proof { reveal_strlit("3"); } "3" },
        4 => { proof { reveal_strlit("4"); } "4" },
        5 => { proof { reveal_strlit("5"); } "5" },
        6 => { proof { reveal_strlit("6"); } "6" },
        7 => { proof { reveal_strlit("7"); } "7" },
        8 => { proof { reveal_strlit("8"); } "8" },
        _ => { proof { reveal_strlit("9"); } "9" },
    }
}

/// The decimal text of a byte.
pub fn decimal_u8(n: u8) -> (s: String)
    ensures
        s@ == decimal(n as nat),
{
    let mut s = String::new();
    if n >= 100 {
        s.append(digit_text(n / 100));
        s.append(digit_text((n / 10) % 10));
        s.append(digit_text(n % 10));
        proof {
            let q = (n / 10) as nat;
            assert(q / 10 == n / 100);
            assert(decimal(q) == decimal(q / 10) + seq![digit_char(q % 10)]);
            assert(decimal(n as nat) == decimal(q) + seq![digit_char((n % 10) as nat)]);
            assert(s@ =~= decimal(n as nat));
        }
    } else if n >= 10 {
        s.append(digit_text(n / 10));
        s.append(digit_text(n % 10));
        assert(decimal((n / 10) as nat) == seq![digit_char((n / 10) as nat)]);
        assert(s@ =~= decimal(n as nat));
    } else {
        s.append(digit_text(n % 10));
        assert(n % 10 == n);
        assert(s@ =~= decimal(n as nat));
    }
    s
}

/// The reason text of an error.
pub open spec fn error_reason(e: ZomeUtilsError) -> Seq<char> {
    match e {
        ZomeUtilsError::TagNotUtf8 => "Failed to parse utf8 string from link tag"@,
        ZomeUtilsError::Deserialize(m) => m@,
        ZomeUtilsError::ComponentText(m) => m@,
        ZomeUtilsError::NoRecord => "no Record found at given hash"@,
        ZomeUtilsError::NoEntry => "Record does not hold an Entry"@,
        ZomeUtilsError::NoEntryHash => "Record does not hold an EntryHash"@,
        ZomeUtilsError::NoAppEntry => "no AppEntry found at given hash"@,
        ZomeUtilsError::NotAnAppEntry => "Not an AppEntry"@,
        ZomeUtilsError::RecordNotFound => "Record not found"@,
        ZomeUtilsError::MalformedDetails => "Malformed details"@,
        ZomeUtilsError::NoEntryAtHash => "No Entry at given hash"@,
        ZomeUtilsError::ExternalLinkType => "AnyDhtHash is of an external link type"@,
        ZomeUtilsError::UnknownZome => "Unknown Zome"@,
        ZomeUtilsError::UnknownVariant => "Unknown variant"@,
        ZomeUtilsError::UnknownEntryDefIndex(i) => "Unknown EntryDefIndex: "@ + decimal(i as nat),
        ZomeUtilsError::RecordNotFoundAtEntryHash => "Record not found at given EntryHash"@,
        ZomeUtilsError::RecordNotFoundAtActionHash => "Record not found at given ActionHash"@,
    }
}

impl ZomeUtilsError {
    /// The reason text of this error, as a zome reports it.
    pub fn reason(&self) -> (s: String)
        ensures
            s@ == error_reason(*self),
    {
        match self {
            ZomeUtilsError::TagNotUtf8 => String::from_str("Failed to parse utf8 string from link tag"),
            ZomeUtilsError::Deserialize(m) => String::from_str(m.as_str()),
            ZomeUtilsError::ComponentText(m) => String::from_str(m.as_str()),
            ZomeUtilsError::NoRecord => String::from_str("no Record found at given hash"),
            ZomeUtilsError::NoEntry => String::from_str("Record does not hold an Entry"),
            ZomeUtilsError::NoEntryHash => String::from_str("Record does not hold an EntryHash"),
            ZomeUtilsError::NoAppEntry => String::from_str("no AppEntry found at given hash"),
            ZomeUtilsError::NotAnAppEntry => String::from_str("Not an AppEntry"),
            ZomeUtilsError::RecordNotFound => String::from_str("Record not found"),
            ZomeUtilsError::MalformedDetails => String::from_str("Malformed details"),
            ZomeUtilsError::NoEntryAtHash => String::from_str("No Entry at given hash"),
            ZomeUtilsError::ExternalLinkType => String::from_str("AnyDhtHash is of an external link type"),
            ZomeUtilsError::UnknownZome => String::from_str("Unknown Zome"),
            ZomeUtilsError::UnknownVariant => String::from_str("Unknown variant"),
            ZomeUtilsError::UnknownEntryDefIndex(i) => {
                let mut s = String::from_str("Unknown EntryDefIndex: ");
                s.append(decimal_u8(*i).as_str());
                s
            },
            ZomeUtilsError::RecordNotFoundAtEntryHash => String::from_str("Record not found at given EntryHash"),
            ZomeUtilsError::RecordNotFoundAtActionHash => String::from_str("Record not found at given ActionHash"),
        }
    }
}

} // verus!
