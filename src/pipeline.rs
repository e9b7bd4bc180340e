use crate::error::DecodeError;
use crate::record::{
    decode_result_model, decode_spec, read_headers, short_value_of, DecodedRecord, FieldModel,
    FieldSpec,
};
use crate::scanner::{find_next_ping, first_match_from, lemma_first_match_bounds, PING_MAGIC};
use vstd::prelude::*;

verus! {

/// The file-header field that gives the number of channel-info records.
pub const CHANNEL_COUNT_FIELD: &'static str = "NumberOfSonarChannels";

/// The ping-header field that gives the number of ping-channel records.
pub const PING_CHANNEL_COUNT_FIELD: &'static str = "NumChansToFollow";

/// The four record layouts of a file.
pub struct FileLayout<'a> {
    pub file_header: Vec<FieldSpec<'a>>,
    pub channel_info: Vec<FieldSpec<'a>>,
    pub ping_header: Vec<FieldSpec<'a>>,
    pub ping_channel: Vec<FieldSpec<'a>>,
}

/// One ping: its header and the channel records that follow it.
pub struct Ping {
    pub header: DecodedRecord,
    pub channels: Vec<DecodedRecord>,
}

/// A ping as mathematical values: its header and its channel records.
pub type PingModel = (Seq<FieldModel>, Seq<Seq<FieldModel>>);

pub open spec fn records_model(v: Seq<DecodedRecord>) -> Seq<Seq<FieldModel>> {
    v.map_values(|r: DecodedRecord| r@)
}

impl View for Ping {
    type V = PingModel;

    open spec fn view(&self) -> PingModel {
        (self.header@, records_model(self.channels@))
    }
}

/// A whole decoded file.
pub struct XtfFile {
    pub file_header: DecodedRecord,
    pub channels: Vec<DecodedRecord>,
    pub pings: Vec<Ping>,
}

/// A decoded file as mathematical values.
pub struct XtfFileModel {
    pub file_header: Seq<FieldModel>,
    pub channels: Seq<Seq<FieldModel>>,
    pub pings: Seq<PingModel>,
}

impl View for XtfFile {
    type V = XtfFileModel;

    open spec fn view(&self) -> XtfFileModel {
        XtfFileModel {
            file_header: self.file_header@,
            channels: records_model(self.channels@),
            pings: self.pings@.map_values(|p: Ping| p@),
        }
    }
}

/// The count that the short field `name` of a record gives; 0 where the record
/// has no such field or it could not be read.
pub open spec fn count_of(fields: Seq<FieldModel>, name: Seq<char>) -> nat {
    match short_value_of(fields, name) {
        Some(v) => v as nat,
        None => 0,
    }
}

/// `count` records of `schema` laid end to end from `base`, each starting where
/// the one before ended, with the offset where the last one ends.
pub open spec fn chain_spec(schema: Seq<FieldSpec>, data: Seq<u8>, base: int, count: nat) -> Result<
    (Seq<Seq<FieldModel>>, int),
    DecodeError,
>
    decreases count,
{
    if count == 0 {
        Ok((Seq::empty(), base))
    } else {
        match chain_spec(schema, data, base, (count - 1) as nat) {
            Err(e) => Err(e),
            Ok((recs, end)) => match decode_spec(schema, data, end) {
                Err(e) => Err(e),
                Ok((rec, next)) => Ok((recs.push(rec), next)),
            },
        }
    }
}

/// How far a scan starting at `cursor` is from the end of `data`.
pub open spec fn scan_room(len: nat, cursor: int) -> nat {
    if cursor <= len {
        (len - cursor + 1) as nat
    } else {
        0
    }
}

/// The pings found from `cursor` on: scan for the magic number, decode the
/// ping header there and as many ping-channel records as it announces, and
/// scan again from where they end. Scanning stops when no magic number is
/// left, or after a ping whose records end no later than where it starts.
pub open spec fn pings_from(
    ping_header: Seq<FieldSpec>,
    ping_channel: Seq<FieldSpec>,
    data: Seq<u8>,
    cursor: int,
) -> Result<Seq<PingModel>, DecodeError>
    decreases scan_room(data.len(), cursor),
{
    match first_match_from(data, cursor, PING_MAGIC) {
        None => Ok(Seq::empty()),
        Some(p) => match decode_spec(ping_header, data, p) {
            Err(e) => Err(e),
            Ok((header, end)) => match chain_spec(
                ping_channel,
                data,
                end,
                count_of(header, PING_CHANNEL_COUNT_FIELD@),
            ) {
                Err(e) => Err(e),
                Ok((channels, next)) => if next <= p {
                    Ok(seq![(header, channels)])
                } else {
                    proof {
                        lemma_first_match_bounds(data, cursor, PING_MAGIC);
                    }
                    match pings_from(ping_header, ping_channel, data, next) {
                        Err(e) => Err(e),
                        Ok(rest) => Ok(seq![(header, channels)] + rest),
                    }
                },
            },
        },
    }
}

/// What decoding a whole file yields: the file header at offset 0, as many
/// channel-info records as it announces, then every ping found after them.
pub open spec fn file_spec(layout: FileLayout, data: Seq<u8>) -> Result<XtfFileModel, DecodeError> {
    match decode_spec(layout.file_header@, data, 0) {
        Err(e) => Err(e),
        Ok((header, end)) => match chain_spec(
            layout.channel_info@,
            data,
            end,
            count_of(header, CHANNEL_COUNT_FIELD@),
        ) {
            Err(e) => Err(e),
            Ok((channels, next)) => match pings_from(
                layout.ping_header@,
                layout.ping_channel@,
                data,
                next,
            ) {
                Err(e) => Err(e),
                Ok(pings) => Ok(XtfFileModel { file_header: header, channels, pings }),
            },
        },
    }
}

/// Joins what was decoded so far with the result of decoding the rest.
pub open spec fn prepend<T>(done: Seq<T>, rest: Result<Seq<T>, DecodeError>) -> Result<
    Seq<T>,
    DecodeError,
> {
    match rest {
        Ok(r) => Ok(done + r),
        Err(e) => Err(e),
    }
}

/// The result of `read_records` as mathematical values.
pub open spec fn chain_result_model(r: Result<(Vec<DecodedRecord>, usize), DecodeError>) -> Result<
    (Seq<Seq<FieldModel>>, int),
    DecodeError,
> {
    match r {
        Ok((recs, end)) => Ok((records_model(recs@), end as int)),
        Err(e) => Err(e),
    }
}

/// Decodes `count` records of `schema` laid end to end from `base_offset`.
pub fn read_records(
    schema: &[FieldSpec],
    data: &[u8],
    base_offset: usize,
    count: u16,
) -> (r: Result<(Vec<DecodedRecord>, usize), DecodeError>)
    ensures
        chain_result_model(r) == chain_spec(schema@, data@, base_offset as int, count as nat),
{
    let mut records: Vec<DecodedRecord> = Vec::new();
    let mut cursor: usize = base_offset;
    let mut i: u16 = 0;
    proof {
        assert(records_model(records@) =~= Seq::<Seq<FieldModel>>::empty());
    }
    while i < count
        invariant
            i <= count,
            chain_spec(schema@, data@, base_offset as int, i as nat) == Ok::<
                (Seq<Seq<FieldModel>>, int),
                DecodeError,
            >((records_model(records@), cursor as int)),
        decreases count - i,
    {
        match read_headers(schema, data, cursor) {
            Err(e) => {
                proof {
                    let failed = (i + 1) as nat;
                    lemma_chain_error(schema@, data@, base_offset as int, failed, count as nat);
                }
                return Err(e);
            },
            Ok((record, next)) => {
                let ghost before = records@;
                records.push(record);
                proof {
                    assert(records_model(records@) =~= records_model(before).push(record@));
                }
                cursor = next;
            },
        }
        i = i + 1;
    }
    Ok((records, cursor))
}

/// Once a chain of records fails, every longer chain fails the same way.
proof fn lemma_chain_error(schema: Seq<FieldSpec>, data: Seq<u8>, base: int, n: nat, m: nat)
    requires
        n <= m,
        chain_spec(schema, data, base, n) is Err,
    ensures
        chain_spec(schema, data, base, m) == chain_spec(schema, data, base, n),
    decreases m,
{
    if n < m {
        lemma_chain_error(schema, data, base, n, (m - 1) as nat);
    }
}

/// Decodes a whole file: the file header, its channel-info records, and every
/// ping that a scan for the magic number finds after them, each with its
/// ping-channel records.
/// Fields that cannot be read are absent; a layout defect (no field, a bad
/// type code) or a record ending past the largest offset is an error.
pub fn decode_file(layout: &FileLayout, data: &[u8]) -> (r: Result<XtfFile, DecodeError>)
    ensures
        match r {
            Ok(f) => file_spec(*layout, data@) == Ok::<XtfFileModel, DecodeError>(f@),
            Err(e) => file_spec(*layout, data@) == Err::<XtfFileModel, DecodeError>(e),
        },
{
    let (file_header, end) = match read_headers(layout.file_header.as_slice(), data, 0) {
        Ok(x) => x,
        Err(e) => {
            return Err(e);
        },
    };
    let count = match file_header.short_value(CHANNEL_COUNT_FIELD) {
        Some(v) => v,
        None => 0,
    };
    let (channels, start) = match read_records(layout.channel_info.as_slice(), data, end, count) {
        Ok(x) => x,
        Err(e) => {
            return Err(e);
        },
    };
    let mut pings: Vec<Ping> = Vec::new();
    let mut cursor: usize = start;
    let ghost header_model = file_header@;
    let ghost channels_model = records_model(channels@);
    loop
        invariant
            decode_spec(layout.file_header@, data@, 0) == Ok::<(Seq<FieldModel>, int), DecodeError>(
                (header_model, end as int),
            ),
            chain_spec(
                layout.channel_info@,
                data@,
                end as int,
                count_of(header_model, CHANNEL_COUNT_FIELD@),
            ) == Ok::<(Seq<Seq<FieldModel>>, int), DecodeError>((channels_model, start as int)),
            header_model == file_header@,
            channels_model == records_model(channels@),
            pings_from(layout.ping_header@, layout.ping_channel@, data@, start as int) == prepend(
                pings@.map_values(|p: Ping| p@),
                pings_from(layout.ping_header@, layout.ping_channel@, data@, cursor as int),
            ),
        decreases scan_room(data@.len(), cursor as int),
    {
        let p = match find_next_ping(data, cursor) {
            Some(p) => p,
            None => {
                let f = XtfFile { file_header, channels, pings };
                proof {
                    assert(f@.pings =~= f@.pings + Seq::<PingModel>::empty());
                }
                return Ok(f);
            },
        };
        proof {
            lemma_first_match_bounds(data@, cursor as int, PING_MAGIC);
        }
        let (header, header_end) = match read_headers(layout.ping_header.as_slice(), data, p) {
            Ok(x) => x,
            Err(e) => {
                return Err(e);
            },
        };
        let n = match header.short_value(PING_CHANNEL_COUNT_FIELD) {
            Some(v) => v,
            None => 0,
        };
        let (ping_channels, next) = match read_records(
            layout.ping_channel.as_slice(),
            data,
            header_end,
            n,
        ) {
            Ok(x) => x,
            Err(e) => {
                return Err(e);
            },
        };
        let ping = Ping { header, channels: ping_channels };
        let ghost before = pings@.map_values(|q: Ping| q@);
        pings.push(ping);
        proof {
            assert(pings@.map_values(|q: Ping| q@) =~= before.push(ping@));
        }
        if next <= p {
            let f = XtfFile { file_header, channels, pings };
            proof {
                assert(before + seq![ping@] =~= f@.pings);
            }
            return Ok(f);
        }
        proof {
            let rest = pings_from(layout.ping_header@, layout.ping_channel@, data@, next as int);
            if rest is Ok {
                assert(before + (seq![ping@] + rest->Ok_0) =~= before.push(ping@) + rest->Ok_0);
            }
        }
        cursor = next;
    }
}

} // verus!
