//! Emote catalogs of the two providers: a URL template and the (name, image id)
//! records that their responses list, accumulated over several responses.

use vstd::prelude::*;
use crate::json::{
    body_outcome, decode_response, field, get_field, get_string, get_u64, string_field,
    u64_field, EmoteError, JsonValue,
};
use crate::text::{
    decimal, decimal_text, has_prefix, lower_of, lowercase, replace_all, replaced, starts_with,
};

verus! {

/// An emote record as characters: its display name and its image id.
pub open spec fn record_view(p: (String, String)) -> (Seq<char>, Seq<char>) {
    (p.0@, p.1@)
}

/// A sequence of emote records as characters.
pub open spec fn records_view(v: Seq<(String, String)>) -> Seq<(Seq<char>, Seq<char>)> {
    v.map_values(|p: (String, String)| record_view(p))
}

/// `a` followed by the records of `o`, if `o` holds any.
pub open spec fn prepend(
    a: Seq<(Seq<char>, Seq<char>)>,
    o: Option<Seq<(Seq<char>, Seq<char>)>>,
) -> Option<Seq<(Seq<char>, Seq<char>)>> {
    match o {
        Some(r) => Some(a + r),
        None => None,
    }
}

proof fn lemma_records_view_push(v: Seq<(String, String)>, p: (String, String))
    ensures
        records_view(v.push(p)) == records_view(v) + seq![record_view(p)],
{
    assert(records_view(v.push(p)) =~= records_view(v) + seq![record_view(p)]);
}

proof fn lemma_records_view_append(a: Seq<(String, String)>, b: Seq<(String, String)>)
    ensures
        records_view(a + b) == records_view(a) + records_view(b),
{
    assert(records_view(a + b) =~= records_view(a) + records_view(b));
}

/// The records of a primary-provider `emotes` object: one per member, named by
/// its key, with the member's `image_id` in decimal; nothing if any member
/// lacks an integer `image_id`.
pub open spec fn global_records(entries: Seq<(String, JsonValue)>) -> Option<
    Seq<(Seq<char>, Seq<char>)>,
>
    decreases entries.len(),
{
    if entries.len() == 0 {
        Some(Seq::empty())
    } else {
        match u64_field(entries[0].1, "image_id"@) {
            Some(id) => prepend(
                seq![(entries[0].0@, decimal(id as nat))],
                global_records(entries.drop_first()),
            ),
            None => None,
        }
    }
}

/// The URL template of a primary-provider response: `template.small`.
pub open spec fn small_template(doc: JsonValue) -> Option<String> {
    match field(doc, "template"@) {
        Some(t) => string_field(t, "small"@),
        None => None,
    }
}

/// The template and the records of a primary-provider global response, when it
/// has every required field.
pub open spec fn global_catalog(doc: JsonValue) -> Option<(String, Seq<(Seq<char>, Seq<char>)>)> {
    match (small_template(doc), field(doc, "emotes"@)) {
        (Some(t), Some(JsonValue::Object(es))) => match global_records(es@) {
            Some(r) => Some((t, r)),
            None => None,
        },
        _ => None,
    }
}

/// Where the primary provider lists its global emotes.
pub const TTV_GLOBAL_URL: &'static str = "https://twitchemotes.com/api_cache/v2/global.json";

/// Where the primary provider lists the emotes of every channel's subscribers.
pub const TTV_SUBSCRIBER_URL: &'static str = "https://twitchemotes.com/api_cache/v2/subscriber.json";

/// Where the secondary provider lists its global emotes.
pub const BTTV_GLOBAL_URL: &'static str = "https://api.betterttv.net/2/emotes";

/// Where the secondary provider lists the emotes of `channel`; the name is put
/// in as it is.
pub fn bttv_channel_url(channel: &str) -> (r: String)
    ensures
        r@ == "https://api.betterttv.net/2/channels/"@ + channel@,
{
    String::from_str("https://api.betterttv.net/2/channels/").concat(channel)
}

/// Each member of a well-formed primary-provider `emotes` object gives exactly
/// one record: its key, with its `image_id` in decimal, in member order.
pub proof fn lemma_one_record_per_global_entry(entries: Seq<(String, JsonValue)>)
    requires
        global_records(entries) is Some,
    ensures
        global_records(entries)->Some_0.len() == entries.len(),
        forall|i: int|
            0 <= i < entries.len() ==> #[trigger] global_records(entries)->Some_0[i] == (
                entries[i].0@,
                decimal(u64_field(entries[i].1, "image_id"@)->Some_0 as nat),
            ),
    decreases entries.len(),
{
    if entries.len() > 0 {
        lemma_one_record_per_global_entry(entries.drop_first());
        let recs = global_records(entries)->Some_0;
        let tail = global_records(entries.drop_first())->Some_0;
        assert forall|i: int| 0 <= i < entries.len() implies #[trigger] recs[i] == (
            entries[i].0@,
            decimal(u64_field(entries[i].1, "image_id"@)->Some_0 as nat),
        ) by {
            if i > 0 {
                assert(recs[i] == tail[i - 1]);
                assert(entries.drop_first()[i - 1] == entries[i]);
            }
        }
    }
}

/// Builds the records of a primary-provider `emotes` object.
pub fn collect_global(entries: &Vec<(String, JsonValue)>) -> (r: Option<Vec<(String, String)>>)
    ensures
        match r {
            Some(v) => global_records(entries@) == Some(records_view(v@)),
            None => global_records(entries@) is None,
        },
{
    let mut acc: Vec<(String, String)> = Vec::new();
    let mut i: usize = 0;
    assert(entries@.skip(0) =~= entries@);
    assert(records_view(acc@) + Seq::empty() =~= Seq::empty());
    while i < entries.len()
        invariant
            i <= entries.len(),
            global_records(entries@) == prepend(
                records_view(acc@),
                global_records(entries@.skip(i as int)),
            ),
        decreases entries.len() - i,
    {
        let ghost rest = entries@.skip(i as int);
        proof {
            assert(rest.drop_first() =~= entries@.skip(i + 1));
        }
        match get_u64(&entries[i].1, "image_id") {
            Some(id) => {
                let p = (entries[i].0.clone(), decimal_text(id));
                proof {
                    lemma_records_view_push(acc@, p);
                    let tail = global_records(entries@.skip(i + 1));
                    if tail is Some {
                        assert(records_view(acc@) + (seq![record_view(p)] + tail->Some_0)
                            =~= records_view(acc@.push(p)) + tail->Some_0);
                    }
                }
                acc.push(p);
            },
            None => {
                return None;
            },
        }
        i += 1;
    }
    assert(records_view(acc@) + Seq::empty() =~= records_view(acc@));
    Some(acc)
}

/// The records of a channel's `emotes` array: one per item, its `code` with
/// its `image_id` in decimal; nothing if any item lacks either.
pub open spec fn code_records(items: Seq<JsonValue>) -> Option<Seq<(Seq<char>, Seq<char>)>>
    decreases items.len(),
{
    if items.len() == 0 {
        Some(Seq::empty())
    } else {
        match (string_field(items[0], "code"@), u64_field(items[0], "image_id"@)) {
            (Some(c), Some(id)) => prepend(
                seq![(c@, decimal(id as nat))],
                code_records(items.drop_first()),
            ),
            _ => None,
        }
    }
}

/// The records of one channel of the subscriber data.
pub open spec fn channel_records(v: JsonValue) -> Option<Seq<(Seq<char>, Seq<char>)>> {
    match field(v, "emotes"@) {
        Some(JsonValue::Array(items)) => code_records(items@),
        _ => None,
    }
}

/// The records of every channel whose lower-case name is `wanted`, in the
/// order of the channels; nothing if one of those channels is malformed.
pub open spec fn matching_records(
    channels: Seq<(String, JsonValue)>,
    wanted: Seq<char>,
) -> Option<Seq<(Seq<char>, Seq<char>)>>
    decreases channels.len(),
{
    if channels.len() == 0 {
        Some(Seq::empty())
    } else if lower_of(channels[0].0@) == wanted {
        match channel_records(channels[0].1) {
            Some(a) => prepend(a, matching_records(channels.drop_first(), wanted)),
            None => None,
        }
    } else {
        matching_records(channels.drop_first(), wanted)
    }
}

/// The template and the `channels` object of a primary-provider subscriber
/// response, when both are there.
pub open spec fn subscriber_data(doc: JsonValue) -> Option<(String, JsonValue)> {
    match (small_template(doc), field(doc, "channels"@)) {
        (Some(t), Some(c)) => if c is Object { Some((t, c)) } else { None },
        _ => None,
    }
}

/// Builds the records of a channel's `emotes` array.
pub fn collect_codes(items: &Vec<JsonValue>) -> (r: Option<Vec<(String, String)>>)
    ensures
        match r {
            Some(v) => code_records(items@) == Some(records_view(v@)),
            None => code_records(items@) is None,
        },
{
    let mut acc: Vec<(String, String)> = Vec::new();
    let mut i: usize = 0;
    assert(items@.skip(0) =~= items@);
    assert(records_view(acc@) + Seq::empty() =~= Seq::empty());
    while i < items.len()
        invariant
            i <= items.len(),
            code_records(items@) == prepend(records_view(acc@), code_records(items@.skip(i as int))),
        decreases items.len() - i,
    {
        let ghost rest = items@.skip(i as int);
        proof {
            assert(rest.drop_first() =~= items@.skip(i + 1));
        }
        let code = match get_string(&items[i], "code") {
            Some(c) => c.clone(),
            None => return None,
        };
        let id = match get_u64(&items[i], "image_id") {
            Some(id) => id,
            None => return None,
        };
        let p = (code, decimal_text(id));
        proof {
            lemma_records_view_push(acc@, p);
            let tail = code_records(items@.skip(i + 1));
            if tail is Some {
                assert(records_view(acc@) + (seq![record_view(p)] + tail->Some_0) =~= records_view(
                    acc@.push(p),
                ) + tail->Some_0);
            }
        }
        acc.push(p);
        i += 1;
    }
    assert(records_view(acc@) + Seq::empty() =~= records_view(acc@));
    Some(acc)
}

/// Builds the records of every channel whose lower-case name is `wanted`.
pub fn collect_matching(channels: &Vec<(String, JsonValue)>, wanted: &String) -> (r: Option<
    Vec<(String, String)>,
>)
    ensures
        match r {
            Some(v) => matching_records(channels@, wanted@) == Some(records_view(v@)),
            None => matching_records(channels@, wanted@) is None,
        },
{
    let mut acc: Vec<(String, String)> = Vec::new();
    let mut i: usize = 0;
    assert(channels@.skip(0) =~= channels@);
    assert(records_view(acc@) + Seq::empty() =~= Seq::empty());
    while i < channels.len()
        invariant
            i <= channels.len(),
            matching_records(channels@, wanted@) == prepend(
                records_view(acc@),
                matching_records(channels@.skip(i as int), wanted@),
            ),
        decreases channels.len() - i,
    {
        let ghost rest = channels@.skip(i as int);
        proof {
            assert(rest.drop_first() =~= channels@.skip(i + 1));
        }
        if lowercase(channels[i].0.as_str()) == *wanted {
            let mut found = match get_field(&channels[i].1, "emotes") {
                Some(JsonValue::Array(items)) => match collect_codes(items) {
                    Some(v) => v,
                    None => return None,
                },
                _ => return None,
            };
            proof {
                lemma_records_view_append(acc@, found@);
                let tail = matching_records(channels@.skip(i + 1), wanted@);
                if tail is Some {
                    assert(records_view(acc@) + (records_view(found@) + tail->Some_0)
                        =~= records_view(acc@ + found@) + tail->Some_0);
                }
            }
            acc.append(&mut found);
        }
        i += 1;
    }
    assert(records_view(acc@) + Seq::empty() =~= records_view(acc@));
    Some(acc)
}

/// The primary provider's catalog: the global emotes and those of channels'
/// subscribers, with the template of the latest response.
pub struct TTVEmoteData {
    pub template: String,
    pub data: Vec<(String, String)>,
    /// The `channels` object of the subscriber response, once loaded.
    pub sub_emotes: Option<JsonValue>,
}

impl TTVEmoteData {
    /// An empty catalog, with no subscriber data loaded.
    pub fn new() -> (r: TTVEmoteData)
        ensures
            r.template@ == Seq::<char>::empty(),
            r.data@.len() == 0,
            r.sub_emotes is None,
    {
        TTVEmoteData { template: String::new(), data: Vec::new(), sub_emotes: None }
    }

    /// Adds the emotes of a primary-provider global response: all of them and
    /// the response's template, or, when a required field is missing, nothing.
    pub fn apply_global_emotes(&mut self, doc: &JsonValue) -> (r: Result<(), EmoteError>)
        ensures
            match global_catalog(*doc) {
                Some((t, recs)) => {
                    &&& r is Ok
                    &&& final(self).template == t
                    &&& records_view(final(self).data@) == records_view(old(self).data@) + recs
                    &&& final(self).sub_emotes == old(self).sub_emotes
                },
                None => r == Err::<(), EmoteError>(EmoteError::Schema) && *final(self) == *old(
                    self,
                ),
            },
    {
        let t = match get_field(doc, "template") {
            Some(tv) => match get_string(tv, "small") {
                Some(t) => t.clone(),
                None => return Err(EmoteError::Schema),
            },
            None => return Err(EmoteError::Schema),
        };
        let mut recs = match get_field(doc, "emotes") {
            Some(JsonValue::Object(es)) => match collect_global(es) {
                Some(v) => v,
                None => return Err(EmoteError::Schema),
            },
            _ => return Err(EmoteError::Schema),
        };
        proof {
            lemma_records_view_append(self.data@, recs@);
        }
        self.template = t;
        self.data.append(&mut recs);
        Ok(())
    }

    /// Keeps the template and the `channels` object of a primary-provider
    /// subscriber response, or, when one is missing, changes nothing.
    pub fn apply_sub_emote_data(&mut self, doc: JsonValue) -> (r: Result<(), EmoteError>)
        ensures
            match subscriber_data(doc) {
                Some((t, c)) => {
                    &&& r is Ok
                    &&& final(self).template == t
                    &&& final(self).data == old(self).data
                    &&& final(self).sub_emotes == Some(c)
                },
                None => r == Err::<(), EmoteError>(EmoteError::Schema) && *final(self) == *old(
                    self,
                ),
            },
    {
        let t = match get_field(&doc, "template") {
            Some(tv) => match get_string(tv, "small") {
                Some(t) => t.clone(),
                None => return Err(EmoteError::Schema),
            },
            None => return Err(EmoteError::Schema),
        };
        match doc {
            JsonValue::Object(mut entries) => match crate::json::member_position(
                &entries,
                "channels",
            ) {
                Some(i) => {
                    let (_, c) = entries.remove(i);
                    if !matches!(c, JsonValue::Object(_)) {
                        return Err(EmoteError::Schema);
                    }
                    self.template = t;
                    self.sub_emotes = Some(c);
                    Ok(())
                },
                None => Err(EmoteError::Schema),
            },
            _ => Err(EmoteError::Schema),
        }
    }

    /// Loads the subscriber data from the body of a primary-provider
    /// subscriber response.
    pub fn update_sub_emote_data(&mut self, body: &str) -> (r: Result<(), EmoteError>)
        ensures
            match body_outcome(body@) {
                Ok(doc) => match subscriber_data(doc) {
                    Some((t, c)) => {
                        &&& r is Ok
                        &&& final(self).template == t
                        &&& final(self).data == old(self).data
                        &&& final(self).sub_emotes == Some(c)
                    },
                    None => r == Err::<(), EmoteError>(EmoteError::Schema) && *final(self)
                        == *old(self),
                },
                Err(e) => r == Err::<(), EmoteError>(e) && *final(self) == *old(self),
            },
    {
        match decode_response(body) {
            Ok(doc) => self.apply_sub_emote_data(doc),
            Err(e) => Err(e),
        }
    }

    /// Adds the emotes of every loaded channel whose name equals `channel`
    /// apart from case. Fails, changing nothing, when no subscriber data is
    /// loaded, when a matching channel is malformed, or when the matching
    /// channels hold no emote.
    pub fn get_subscriber_emotes(&mut self, channel: &str) -> (r: Result<(), EmoteError>)
        ensures
            match old(self).sub_emotes {
                Some(JsonValue::Object(es)) => match matching_records(es@, lower_of(channel@)) {
                    Some(recs) => if recs.len() > 0 {
                        &&& r is Ok
                        &&& final(self).template == old(self).template
                        &&& records_view(final(self).data@) == records_view(old(self).data@)
                            + recs
                        &&& final(self).sub_emotes == old(self).sub_emotes
                    } else {
                        r == Err::<(), EmoteError>(EmoteError::NotFound) && *final(self) == *old(
                            self,
                        )
                    },
                    None => r == Err::<(), EmoteError>(EmoteError::Schema) && *final(self)
                        == *old(self),
                },
                Some(_) => r == Err::<(), EmoteError>(EmoteError::Schema) && *final(self)
                    == *old(self),
                None => r == Err::<(), EmoteError>(EmoteError::NotLoaded) && *final(self)
                    == *old(self),
            },
    {
        let wanted = lowercase(channel);
        let mut found = match &self.sub_emotes {
            Some(JsonValue::Object(es)) => match collect_matching(es, &wanted) {
                Some(v) => v,
                None => return Err(EmoteError::Schema),
            },
            Some(_) => return Err(EmoteError::Schema),
            None => return Err(EmoteError::NotLoaded),
        };
        if found.len() == 0 {
            return Err(EmoteError::NotFound);
        }
        proof {
            lemma_records_view_append(self.data@, found@);
        }
        self.data.append(&mut found);
        Ok(())
    }

    /// Adds the emotes of the body of a primary-provider global response.
    pub fn get_global_emotes(&mut self, body: &str) -> (r: Result<(), EmoteError>)
        ensures
            match body_outcome(body@) {
                Ok(doc) => match global_catalog(doc) {
                    Some((t, recs)) => {
                        &&& r is Ok
                        &&& final(self).template == t
                        &&& records_view(final(self).data@) == records_view(old(self).data@)
                            + recs
                        &&& final(self).sub_emotes == old(self).sub_emotes
                    },
                    None => r == Err::<(), EmoteError>(EmoteError::Schema) && *final(self)
                        == *old(self),
                },
                Err(e) => r == Err::<(), EmoteError>(e) && *final(self) == *old(self),
            },
    {
        match decode_response(body) {
            Ok(doc) => self.apply_global_emotes(&doc),
            Err(e) => Err(e),
        }
    }
}

/// What the items of a secondary-provider `emotes` array give: a record
/// (`code`, `id`) for each item whose `imageType` is `png`, and the
/// `imageType` of each item whose type is neither `png` nor `gif`; nothing if
/// an item lacks one of the three strings.
pub open spec fn png_records(items: Seq<JsonValue>) -> Option<
    (Seq<(Seq<char>, Seq<char>)>, Seq<String>),
>
    decreases items.len(),
{
    if items.len() == 0 {
        Some((Seq::empty(), Seq::empty()))
    } else {
        match (
            string_field(items[0], "code"@),
            string_field(items[0], "id"@),
            string_field(items[0], "imageType"@),
            png_records(items.drop_first()),
        ) {
            (Some(c), Some(id), Some(t), Some((recs, warns))) => if t@ == "png"@ {
                Some((seq![(c@, id@)] + recs, warns))
            } else if t@ == "gif"@ {
                Some((recs, warns))
            } else {
                Some((recs, seq![t] + warns))
            },
            _ => None,
        }
    }
}

/// Whether an item of a secondary-provider `emotes` array has an image type
/// other than `png` and `gif`.
pub open spec fn unexpected_type(item: JsonValue) -> bool {
    match string_field(item, "imageType"@) {
        Some(t) => t@ != "png"@ && t@ != "gif"@,
        None => false,
    }
}

/// How many items have an image type other than `png` and `gif`.
pub open spec fn unexpected_count(items: Seq<JsonValue>) -> nat
    decreases items.len(),
{
    if items.len() == 0 {
        0
    } else {
        (if unexpected_type(items[0]) { 1nat } else { 0nat }) + unexpected_count(items.drop_first())
    }
}

/// Whether `rec` is the `code` and `id` of item `j`, whose image type is `png`.
pub open spec fn png_source(items: Seq<JsonValue>, j: int, rec: (Seq<char>, Seq<char>)) -> bool {
    &&& 0 <= j < items.len()
    &&& string_field(items[j], "imageType"@)->Some_0@ == "png"@
    &&& rec == (string_field(items[j], "code"@)->Some_0@, string_field(items[j], "id"@)->Some_0@)
}

/// Whether `rec` is the `code` and `id` of an item whose image type is `png`.
pub open spec fn from_png_item(items: Seq<JsonValue>, rec: (Seq<char>, Seq<char>)) -> bool {
    exists|j: int| png_source(items, j, rec)
}

/// Of a well-formed secondary-provider `emotes` array, every record is the
/// `code` and `id` of an item whose image type is `png`; each item of another
/// type but `gif` gives exactly one warning, which names that type, and a
/// `gif` item gives none.
pub proof fn lemma_only_png_records(items: Seq<JsonValue>)
    requires
        png_records(items) is Some,
    ensures
        forall|k: int|
            0 <= k < png_records(items)->Some_0.0.len() ==> from_png_item(
                items,
                #[trigger] png_records(items)->Some_0.0[k],
            ),
        png_records(items)->Some_0.1.len() == unexpected_count(items),
        forall|k: int|
            0 <= k < png_records(items)->Some_0.1.len() ==> #[trigger] png_records(
                items,
            )->Some_0.1[k]@ != "png"@ && png_records(items)->Some_0.1[k]@ != "gif"@,
    decreases items.len(),
{
    if items.len() > 0 {
        let rest = items.drop_first();
        lemma_only_png_records(rest);
        let (recs, warns) = png_records(items)->Some_0;
        let (trecs, twarns) = png_records(rest)->Some_0;
        let t = string_field(items[0], "imageType"@)->Some_0;
        assert forall|k: int| 0 <= k < recs.len() implies from_png_item(items, #[trigger] recs[k]) by {
            if t@ == "png"@ && k == 0 {
                assert(png_source(items, 0, recs[k]));
            } else {
                let k2 = if t@ == "png"@ { k - 1 } else { k };
                assert(recs[k] == trecs[k2]);
                let j = choose|j: int| #[trigger] png_source(rest, j, trecs[k2]);
                assert(rest[j] == items[j + 1]);
                assert(png_source(items, j + 1, recs[k]));
            }
        }
        assert forall|k: int| 0 <= k < warns.len() implies #[trigger] warns[k]@ != "png"@
            && warns[k]@ != "gif"@ by {
            if t@ != "png"@ && t@ != "gif"@ && k > 0 {
                assert(warns[k] == twarns[k - 1]);
            }
        }
    }
}

/// The download template that a secondary-provider `urlTemplate` stands for:
/// the size placeholder set to `1x`, and the `https:` scheme put in front of
/// a scheme-relative address.
pub open spec fn bttv_template(t: Seq<char>) -> Seq<char> {
    let r = replaced(t, "{{image}}"@, "1x"@);
    if has_prefix(t, "//"@) {
        "https:"@ + r
    } else {
        r
    }
}

/// The template, the records and the warnings of a secondary-provider
/// response, when it has every required field.
pub open spec fn bttv_catalog(doc: JsonValue) -> Option<
    (Seq<char>, Seq<(Seq<char>, Seq<char>)>, Seq<String>),
> {
    match (string_field(doc, "urlTemplate"@), field(doc, "emotes"@)) {
        (Some(t), Some(JsonValue::Array(items))) => match png_records(items@) {
            Some((recs, warns)) => Some((bttv_template(t@), recs, warns)),
            None => None,
        },
        _ => None,
    }
}

/// Builds the records and the warnings of a secondary-provider `emotes` array.
pub fn collect_png(items: &Vec<JsonValue>) -> (r: Option<(Vec<(String, String)>, Vec<String>)>)
    ensures
        match r {
            Some((v, w)) => png_records(items@) == Some((records_view(v@), w@)),
            None => png_records(items@) is None,
        },
{
    let mut recs: Vec<(String, String)> = Vec::new();
    let mut warns: Vec<String> = Vec::new();
    let png = String::from_str("png");
    let gif = String::from_str("gif");
    let mut i: usize = 0;
    assert(items@.skip(0) =~= items@);
    assert(records_view(recs@) + Seq::empty() =~= Seq::empty());
    assert(warns@ + Seq::<String>::empty() =~= Seq::<String>::empty());
    while i < items.len()
        invariant
            i <= items.len(),
            png@ == "png"@,
            gif@ == "gif"@,
            png_records(items@) == match png_records(items@.skip(i as int)) {
                Some((a, b)) => Some((records_view(recs@) + a, warns@ + b)),
                None => None,
            },
        decreases items.len() - i,
    {
        let ghost rest = items@.skip(i as int);
        proof {
            assert(rest.drop_first() =~= items@.skip(i + 1));
        }
        let code = match get_string(&items[i], "code") {
            Some(c) => c,
            None => return None,
        };
        let id = match get_string(&items[i], "id") {
            Some(c) => c,
            None => return None,
        };
        let t = match get_string(&items[i], "imageType") {
            Some(c) => c,
            None => return None,
        };
        let ghost tail = png_records(items@.skip(i + 1));
        if *t == png {
            let p = (code.clone(), id.clone());
            proof {
                lemma_records_view_push(recs@, p);
                if tail is Some {
                    assert(records_view(recs@) + (seq![record_view(p)] + tail->Some_0.0)
                        =~= records_view(recs@.push(p)) + tail->Some_0.0);
                }
            }
            recs.push(p);
        } else if *t == gif {
        } else {
            proof {
                if tail is Some {
                    assert(warns@ + (seq![*t] + tail->Some_0.1) =~= warns@.push(*t)
                        + tail->Some_0.1);
                }
            }
            warns.push(t.clone());
        }
        i += 1;
    }
    assert(records_view(recs@) + Seq::empty() =~= records_view(recs@));
    assert(warns@ + Seq::<String>::empty() =~= warns@);
    Some((recs, warns))
}

/// Turns a secondary-provider `urlTemplate` into a download template.
pub fn bttv_template_of(t: &str) -> (r: String)
    ensures
        r@ == bttv_template(t@),
{
    proof {
        reveal_strlit("{{image}}");
    }
    let r = replace_all(t, "{{image}}", "1x");
    if starts_with(t, "//") {
        String::from_str("https:").concat(r.as_str())
    } else {
        r
    }
}

/// The secondary provider's catalog: the global emotes and those of channels,
/// with the template of the latest response.
pub struct BTTVEmoteData {
    pub template: String,
    pub data: Vec<(String, String)>,
}

impl BTTVEmoteData {
    /// An empty catalog.
    pub fn new() -> (r: BTTVEmoteData)
        ensures
            r.template@ == Seq::<char>::empty(),
            r.data@.len() == 0,
    {
        BTTVEmoteData { template: String::new(), data: Vec::new() }
    }

    /// Adds the png emotes of a secondary-provider response, global or of a
    /// channel, and sets the template from it; returns the image types that
    /// were neither png nor gif, one per item. When a required field is
    /// missing, nothing changes.
    pub fn apply_bttv_emotes(&mut self, doc: &JsonValue) -> (r: Result<Vec<String>, EmoteError>)
        ensures
            match bttv_catalog(*doc) {
                Some((t, recs, warns)) => {
                    &&& r is Ok
                    &&& r->Ok_0@ == warns
                    &&& final(self).template@ == t
                    &&& records_view(final(self).data@) == records_view(old(self).data@) + recs
                },
                None => r == Err::<Vec<String>, EmoteError>(EmoteError::Schema) && *final(self)
                    == *old(self),
            },
    {
        let t = match get_string(doc, "urlTemplate") {
            Some(t) => bttv_template_of(t.as_str()),
            None => return Err(EmoteError::Schema),
        };
        let (mut recs, warns) = match get_field(doc, "emotes") {
            Some(JsonValue::Array(items)) => match collect_png(items) {
                Some(p) => p,
                None => return Err(EmoteError::Schema),
            },
            _ => return Err(EmoteError::Schema),
        };
        proof {
            lemma_records_view_append(self.data@, recs@);
        }
        self.template = t;
        self.data.append(&mut recs);
        Ok(warns)
    }

    /// Adds the emotes of the body of the secondary provider's global response.
    pub fn get_global_bttv_emotes(&mut self, body: &str) -> (r: Result<Vec<String>, EmoteError>)
        ensures
            bttv_applied(*old(self), *final(self), body@, r),
    {
        match decode_response(body) {
            Ok(doc) => self.apply_bttv_emotes(&doc),
            Err(e) => Err(e),
        }
    }

    /// Adds the emotes of the body of the secondary provider's response for
    /// one channel.
    pub fn get_channel_bttv_emote(&mut self, body: &str) -> (r: Result<Vec<String>, EmoteError>)
        ensures
            bttv_applied(*old(self), *final(self), body@, r),
    {
        match decode_response(body) {
            Ok(doc) => self.apply_bttv_emotes(&doc),
            Err(e) => Err(e),
        }
    }
}

/// How a secondary-provider response body changes a catalog: the error that
/// the body is or reports, or what its document adds.
pub open spec fn bttv_applied(
    before: BTTVEmoteData,
    after: BTTVEmoteData,
    body: Seq<char>,
    r: Result<Vec<String>, EmoteError>,
) -> bool {
    match body_outcome(body) {
        Ok(doc) => match bttv_catalog(doc) {
            Some((t, recs, warns)) => {
                &&& r is Ok
                &&& r->Ok_0@ == warns
                &&& after.template@ == t
                &&& records_view(after.data@) == records_view(before.data@) + recs
            },
            None => r == Err::<Vec<String>, EmoteError>(EmoteError::Schema) && after == before,
        },
        Err(e) => r == Err::<Vec<String>, EmoteError>(e) && after == before,
    }
}

} // verus!
