//! The registry of accepted uploads, keyed by the identifier of their
//! content.

use std::collections::HashMap;
use vstd::prelude::*;
use vstd::std_specs::hash::group_hash_axioms;
use crate::file_name::{base_name, base_name_start, extension_of, extension_start};
use crate::identifier::{
    canonical_text,
    content_id,
    content_identifier,
    is_version_5_identifier,
    lemma_canonical_text_injective,
    lemma_canonical_text_layout,
    lemma_version_5_text_is_valid,
    ContentIdentifier,
};
use crate::sniff::{category_of, kind_extension, sniff_category, sniffed_extension, MediaCategory};
use crate::text::{chars_of, option_text};
use crate::validators::validate_file::{content_valid, name_claims, name_matches_kind};
use crate::validators::validate_uuid::{has_uuid_layout, is_uuid_v5};

verus! {

broadcast use group_hash_axioms;

/// Where accepted images are kept.
pub const IMAGES_PATH: &'static str = "sec.upload/images/";

/// Where accepted videos are kept.
pub const VIDEOS_PATH: &'static str = "sec.upload/videos/";

/// What the registry holds for one accepted upload.
#[derive(Debug)]
pub struct StoredFileRecord {
    /// Where the file is kept.
    pub destination_path: String,
    /// Whether it is an image or a video.
    pub media_category: MediaCategory,
}

/// A `StoredFileRecord` as a value of specifications.
pub struct RecordView {
    pub destination_path: Seq<char>,
    pub media_category: MediaCategory,
}

impl View for StoredFileRecord {
    type V = RecordView;

    open spec fn view(&self) -> RecordView {
        RecordView {
            destination_path: self.destination_path@,
            media_category: self.media_category,
        }
    }
}

/// Why an upload was refused or a file was not found.
#[derive(Clone, Copy, Debug, PartialEq, Eq, Structural)]
pub enum UploadError {
    /// No bytes were given, or the claimed name has no extension.
    InvalidInput,
    /// The bytes are neither an image nor a video, or the claimed extension
    /// does not stand for their kind.
    InvalidFormat,
    /// The same content is already held, under the identifier given.
    DuplicateUpload(ContentIdentifier),
    /// Nothing is held under the identifier.
    NotFound,
}

/// Where a file of the given category and claimed name is kept: the
/// directory of its category, then its base name.
pub open spec fn destination(category: MediaCategory, name: Seq<char>) -> Seq<char> {
    match category {
        MediaCategory::Image => IMAGES_PATH@ + base_name(name),
        MediaCategory::Video => VIDEOS_PATH@ + base_name(name),
    }
}

/// Builds the path under which a file of the given category and claimed
/// name is kept.
pub fn destination_path(category: MediaCategory, claimed_name: &String) -> (r: String)
    ensures
        r@ == destination(category, claimed_name@),
{
    let chars = chars_of(claimed_name.as_str());
    let start = base_name_start(&chars);
    let mut r = match category {
        MediaCategory::Image => String::from_str(IMAGES_PATH),
        MediaCategory::Video => String::from_str(VIDEOS_PATH),
    };
    let ghost dir = r@;
    let mut i: usize = start;
    while i < chars.len()
        invariant
            start <= i <= chars.len(),
            r@ == dir + chars@.subrange(start as int, i as int),
        decreases chars.len() - i,
    {
        r.push(chars[i]);
        assert(chars@.subrange(start as int, i + 1) =~= chars@.subrange(
            start as int,
            i as int,
        ).push(chars@[i as int]));
        i += 1;
    }
    assert(chars@.subrange(start as int, chars.len() as int) == base_name(chars@));
    r
}

/// The verdict on an upload, from what the sniffer said of its bytes: the
/// category under which it is accepted, or why it is refused.
///
/// Emptiness is looked at first, then the category, and the name last.
pub open spec fn judged(
    is_empty: bool,
    category: Option<MediaCategory>,
    kind: Option<Seq<char>>,
    name: Seq<char>,
) -> Result<MediaCategory, UploadError> {
    if is_empty {
        Err(UploadError::InvalidInput)
    } else if category is None {
        Err(UploadError::InvalidFormat)
    } else if extension_of(name) is None {
        Err(UploadError::InvalidInput)
    } else if kind is Some && name_claims(name, kind->0) {
        Ok(category->0)
    } else {
        Err(UploadError::InvalidFormat)
    }
}

/// The verdict on an upload of `bytes` under the claimed `name`.
pub open spec fn upload_verdict(bytes: Seq<u8>, name: Seq<char>) -> Result<
    MediaCategory,
    UploadError,
> {
    judged(bytes.len() == 0, category_of(bytes), sniffed_extension(bytes), name)
}

/// Gives the verdict on an upload from what the sniffer said of its bytes.
pub fn judge_upload(
    is_empty: bool,
    category: Option<MediaCategory>,
    kind: &Option<String>,
    claimed_name: &String,
) -> (r: Result<MediaCategory, UploadError>)
    ensures
        r == judged(is_empty, category, option_text(*kind), claimed_name@),
{
    if is_empty {
        return Err(UploadError::InvalidInput);
    }
    match category {
        None => Err(UploadError::InvalidFormat),
        Some(c) => {
            let chars = chars_of(claimed_name.as_str());
            if extension_start(&chars).is_none() {
                return Err(UploadError::InvalidInput);
            }
            match kind {
                Some(k) => {
                    if name_matches_kind(claimed_name, k.as_str()) {
                        Ok(c)
                    } else {
                        Err(UploadError::InvalidFormat)
                    }
                },
                None => Err(UploadError::InvalidFormat),
            }
        },
    }
}

/// Sniffs `bytes` and gives the verdict on their upload under
/// `claimed_name`.
pub fn check_upload(bytes: &[u8], claimed_name: &String) -> (r: Result<MediaCategory, UploadError>)
    ensures
        r == upload_verdict(bytes@, claimed_name@),
{
    let category = sniff_category(bytes);
    let kind = match category {
        Some(_) => kind_extension(bytes),
        None => None,
    };
    judge_upload(bytes.len() == 0, category, &kind, claimed_name)
}

/// An upload is accepted exactly where `validate_file` accepts the bytes
/// under the claimed name, and then under the category of the bytes.
pub proof fn lemma_verdict_is_validation(bytes: Seq<u8>, name: Seq<char>)
    ensures
        upload_verdict(bytes, name) is Ok <==> content_valid(bytes, name),
        upload_verdict(bytes, name) is Ok ==> category_of(bytes) == Some(
            upload_verdict(bytes, name)->Ok_0,
        ),
{
}

/// The outcome of entering `id` into `store`: the identifier itself where
/// it is new, else the report that it is held already.
pub open spec fn insert_outcome(store: Map<u128, RecordView>, id: ContentIdentifier) -> Result<
    ContentIdentifier,
    UploadError,
> {
    if store.contains_key(id.bits) {
        Err(UploadError::DuplicateUpload(id))
    } else {
        Ok(id)
    }
}

/// The registry after entering `id`: a new identifier gets its record, and
/// one that is held already keeps the record it has.
pub open spec fn insert_next(
    store: Map<u128, RecordView>,
    id: ContentIdentifier,
    category: MediaCategory,
    name: Seq<char>,
) -> Map<u128, RecordView> {
    if store.contains_key(id.bits) {
        store
    } else {
        store.insert(
            id.bits,
            RecordView { destination_path: destination(category, name), media_category: category },
        )
    }
}

/// The outcome of registering `bytes` under the claimed `name`.
pub open spec fn register_outcome(
    store: Map<u128, RecordView>,
    bytes: Seq<u8>,
    name: Seq<char>,
) -> Result<ContentIdentifier, UploadError> {
    match upload_verdict(bytes, name) {
        Ok(_) => insert_outcome(store, ContentIdentifier { bits: content_id(bytes) }),
        Err(e) => Err(e),
    }
}

/// The registry after registering `bytes` under the claimed `name`.
pub open spec fn register_next(
    store: Map<u128, RecordView>,
    bytes: Seq<u8>,
    name: Seq<char>,
) -> Map<u128, RecordView> {
    match upload_verdict(bytes, name) {
        Ok(category) => insert_next(
            store,
            ContentIdentifier { bits: content_id(bytes) },
            category,
            name,
        ),
        Err(_) => store,
    }
}

/// Every identifier that `store` holds is of version 5 and of the variant
/// of RFC 4122.
pub open spec fn keys_are_version_5(store: Map<u128, RecordView>) -> bool {
    forall|bits: u128| #[trigger] store.contains_key(bits) ==> is_version_5_identifier(bits)
}

/// What `store` holds under the identifier whose canonical text is `text`.
pub open spec fn lookup(store: Map<u128, RecordView>, text: Seq<char>) -> Option<RecordView> {
    if exists|bits: u128| store.contains_key(bits) && #[trigger] canonical_text(bits) == text {
        let bits = choose|bits: u128|
            store.contains_key(bits) && #[trigger] canonical_text(bits) == text;
        Some(store[bits])
    } else {
        None
    }
}

/// Looking up the canonical text of an identifier gives what is held under
/// that identifier.
pub proof fn lemma_lookup_by_text(store: Map<u128, RecordView>, bits: u128)
    ensures
        lookup(store, canonical_text(bits)) == if store.contains_key(bits) {
            Some(store[bits])
        } else {
            None
        },
{
    let text = canonical_text(bits);
    if exists|b: u128| store.contains_key(b) && #[trigger] canonical_text(b) == text {
        let b = choose|b: u128| store.contains_key(b) && #[trigger] canonical_text(b) == text;
        lemma_canonical_text_injective(b, bits);
    }
}

/// The registry of accepted uploads. Each identifier is entered once: the
/// first upload of some content stays, and a later one is reported as a
/// duplicate. Every identifier held is of version 5, so that a text which
/// `validate_uuid` refuses is the text of none of them.
///
/// A registry is a value that its owner hands to whoever needs it. Entering
/// an upload takes it by `&mut`, so looking for a duplicate and entering the
/// record are one step that nothing can come between; callers that share a
/// registry among threads keep it behind one lock and hold the lock for the
/// length of a call. What is handed out is a copy, never a way into the
/// registry.
pub struct UploadStore {
    records: HashMap<u128, StoredFileRecord>,
}

impl View for UploadStore {
    type V = Map<u128, RecordView>;

    closed spec fn view(&self) -> Map<u128, RecordView> {
        self.records@.map_values(|r: StoredFileRecord| r@)
    }
}

impl UploadStore {
    /// Every identifier held is of version 5 and of the variant of RFC 4122:
    /// its canonical text is one that `validate_uuid` accepts.
    #[verifier::type_invariant]
    spec fn keys_well_formed(self) -> bool {
        forall|bits: u128| #[trigger]
            self.records@.contains_key(bits) ==> is_version_5_identifier(bits)
    }

    /// An empty registry.
    pub fn new() -> (store: Self)
        ensures
            store@ == Map::<u128, RecordView>::empty(),
    {
        let store = UploadStore { records: HashMap::new() };
        assert(store@ =~= Map::<u128, RecordView>::empty());
        store
    }

    /// Enters an upload whose content has the identifier `id`, unless that
    /// identifier is held already.
    ///
    /// The identifier is one derived from content, or another of version 5
    /// and of the variant of RFC 4122: the registry holds no others.
    pub fn register_identified(
        &mut self,
        id: ContentIdentifier,
        category: MediaCategory,
        claimed_name: &String,
    ) -> (r: Result<ContentIdentifier, UploadError>)
        requires
            is_version_5_identifier(id.bits),
        ensures
            r == insert_outcome(old(self)@, id),
            final(self)@ == insert_next(old(self)@, id, category, claimed_name@),
            keys_are_version_5(old(self)@),
            keys_are_version_5(final(self)@),
    {
        proof {
            use_type_invariant(&*self);
        }
        if self.records.contains_key(&id.bits) {
            return Err(UploadError::DuplicateUpload(id));
        }
        let record = StoredFileRecord {
            destination_path: destination_path(category, claimed_name),
            media_category: category,
        };
        let ghost before = self.records@;
        // The records are taken out while one is entered: what stays behind
        // is an empty registry, well formed whatever happens meanwhile.
        let mut records: HashMap<u128, StoredFileRecord> = HashMap::new();
        std::mem::swap(&mut self.records, &mut records);
        records.insert(id.bits, record);
        std::mem::swap(&mut self.records, &mut records);
        assert(self.records@.map_values(|r: StoredFileRecord| r@) =~= before.map_values(
            |r: StoredFileRecord| r@,
        ).insert(id.bits, record@));
        Ok(id)
    }

    /// Registers an upload of `bytes` under the name `claimed_name`.
    ///
    /// The upload is refused where no bytes were given, where the bytes are
    /// neither an image nor a video, or where the name has no extension or
    /// one that does not stand for the kind of the bytes. Content that is
    /// held already is reported with the identifier it is held under, and
    /// the registry stays as it was. Otherwise the upload is entered under
    /// the identifier of its content, which is returned.
    ///
    /// So the upload succeeds exactly where `validate_file` accepts the
    /// bytes under the name and their content is not held yet, and the text
    /// of the identifier returned is one that `validate_uuid` accepts.
    pub fn register_upload(&mut self, bytes: &[u8], claimed_name: &String) -> (r: Result<
        ContentIdentifier,
        UploadError,
    >)
        ensures
            r == register_outcome(old(self)@, bytes@, claimed_name@),
            final(self)@ == register_next(old(self)@, bytes@, claimed_name@),
            r is Ok <==> content_valid(bytes@, claimed_name@) && !old(self)@.contains_key(
                content_id(bytes@),
            ),
            r is Ok ==> is_uuid_v5(canonical_text(r->Ok_0.bits)),
            keys_are_version_5(old(self)@),
            keys_are_version_5(final(self)@),
    {
        proof {
            use_type_invariant(&*self);
            lemma_verdict_is_validation(bytes@, claimed_name@);
        }
        match check_upload(bytes, claimed_name) {
            Err(e) => Err(e),
            Ok(category) => {
                let id = content_identifier(bytes);
                self.register_identified(id, category, claimed_name)
            },
        }
    }

    /// The record held under the identifier whose canonical text is
    /// `identifier`, if there is one.
    fn find(&self, identifier: &String) -> (r: Option<&StoredFileRecord>)
        ensures
            match r {
                Some(record) => lookup(self@, identifier@) == Some(record@),
                None => lookup(self@, identifier@) is None,
            },
            keys_are_version_5(self@),
            r is Some ==> is_uuid_v5(identifier@),
    {
        proof {
            use_type_invariant(self);
        }
        match ContentIdentifier::parse(identifier.as_str()) {
            None => None,
            Some(id) => {
                proof {
                    lemma_lookup_by_text(self@, id.bits);
                    if self@.contains_key(id.bits) {
                        lemma_version_5_text_is_valid(id.bits);
                    }
                }
                self.records.get(&id.bits)
            },
        }
    }

    /// Tells the category of the file held under `identifier`.
    ///
    /// Any text may be given: one that is the canonical text of no
    /// identifier held here gives `NotFound`, and so does every text that
    /// `validate_uuid` refuses.
    pub fn verify_exists(&self, identifier: &String) -> (r: Result<MediaCategory, UploadError>)
        ensures
            r == match lookup(self@, identifier@) {
                Some(record) => Ok::<MediaCategory, UploadError>(record.media_category),
                None => Err(UploadError::NotFound),
            },
            !is_uuid_v5(identifier@) ==> r == Err::<MediaCategory, UploadError>(
                UploadError::NotFound,
            ),
            keys_are_version_5(self@),
    {
        match self.find(identifier) {
            Some(record) => Ok(record.media_category),
            None => Err(UploadError::NotFound),
        }
    }

    /// The path of the file held under `identifier`.
    ///
    /// Any text may be given: one that is the canonical text of no
    /// identifier held here gives `None`, and so does every text that
    /// `validate_uuid` refuses.
    pub fn get_path(&self, identifier: &String) -> (r: Option<String>)
        ensures
            option_text(r) == match lookup(self@, identifier@) {
                Some(record) => Some(record.destination_path),
                None => None,
            },
            !is_uuid_v5(identifier@) ==> r is None,
            keys_are_version_5(self@),
    {
        match self.find(identifier) {
            Some(record) => Some(record.destination_path.clone()),
            None => None,
        }
    }
}

/// Of two uploads of the same bytes that `validate_file` accepts under
/// both names, the second is reported as a duplicate under the identifier of
/// the content and leaves the registry as the first left it. The first
/// succeeds exactly where the content was not held before, and the record
/// then held is that of the first: the name is no part of the key, and
/// nothing is written over.
pub proof fn lemma_second_upload_is_duplicate(
    store: Map<u128, RecordView>,
    bytes: Seq<u8>,
    first_name: Seq<char>,
    second_name: Seq<char>,
)
    requires
        content_valid(bytes, first_name),
        content_valid(bytes, second_name),
    ensures
        ({
            let id = ContentIdentifier { bits: content_id(bytes) };
            let first = register_outcome(store, bytes, first_name);
            let between = register_next(store, bytes, first_name);
            let second = register_outcome(between, bytes, second_name);
            &&& first == if store.contains_key(id.bits) {
                Err::<ContentIdentifier, UploadError>(UploadError::DuplicateUpload(id))
            } else {
                Ok(id)
            }
            &&& second == Err::<ContentIdentifier, UploadError>(UploadError::DuplicateUpload(id))
            &&& register_next(between, bytes, second_name) == between
            &&& !store.contains_key(id.bits) ==> between == store.insert(
                id.bits,
                RecordView {
                    destination_path: destination(category_of(bytes)->0, first_name),
                    media_category: category_of(bytes)->0,
                },
            )
        }),
{
    lemma_verdict_is_validation(bytes, first_name);
    lemma_verdict_is_validation(bytes, second_name);
}

/// On a new registry, of two uploads of the same bytes that `validate_file`
/// accepts under both names, the first succeeds and the second is a
/// duplicate of it, whichever of the two names comes first; the registry
/// then holds one record, that of the first.
pub proof fn lemma_one_success_one_duplicate(
    bytes: Seq<u8>,
    first_name: Seq<char>,
    second_name: Seq<char>,
)
    requires
        content_valid(bytes, first_name),
        content_valid(bytes, second_name),
    ensures
        ({
            let id = ContentIdentifier { bits: content_id(bytes) };
            let new = Map::<u128, RecordView>::empty();
            let between = register_next(new, bytes, first_name);
            let after = register_next(between, bytes, second_name);
            &&& register_outcome(new, bytes, first_name) == Ok::<ContentIdentifier, UploadError>(
                id,
            )
            &&& register_outcome(between, bytes, second_name) == Err::<
                ContentIdentifier,
                UploadError,
            >(UploadError::DuplicateUpload(id))
            &&& after.dom() == set![id.bits]
            &&& after[id.bits].destination_path == destination(category_of(bytes)->0, first_name)
        }),
{
    let new = Map::<u128, RecordView>::empty();
    lemma_second_upload_is_duplicate(new, bytes, first_name, second_name);
    let after = register_next(register_next(new, bytes, first_name), bytes, second_name);
    assert(after.dom() =~= set![content_id(bytes)]);
}

/// Two contents with different identifiers, each accepted by
/// `validate_file` under its name and neither held yet, are both entered,
/// in either order: the registry then holds a record for each, and the
/// texts of the two identifiers differ.
pub proof fn lemma_different_contents_make_two_records(
    store: Map<u128, RecordView>,
    first: Seq<u8>,
    first_name: Seq<char>,
    second: Seq<u8>,
    second_name: Seq<char>,
)
    requires
        content_valid(first, first_name),
        content_valid(second, second_name),
        content_id(first) != content_id(second),
        !store.contains_key(content_id(first)),
        !store.contains_key(content_id(second)),
    ensures
        ({
            let between = register_next(store, first, first_name);
            let after = register_next(between, second, second_name);
            &&& register_outcome(store, first, first_name) is Ok
            &&& register_outcome(between, second, second_name) is Ok
            &&& after.contains_key(content_id(first))
            &&& after.contains_key(content_id(second))
            &&& after[content_id(first)].destination_path == destination(
                category_of(first)->0,
                first_name,
            )
            &&& after[content_id(second)].destination_path == destination(
                category_of(second)->0,
                second_name,
            )
            &&& canonical_text(content_id(first)) != canonical_text(content_id(second))
        }),
{
    lemma_verdict_is_validation(first, first_name);
    lemma_verdict_is_validation(second, second_name);
    if canonical_text(content_id(first)) == canonical_text(content_id(second)) {
        lemma_canonical_text_injective(content_id(first), content_id(second));
    }
}

/// Registering never removes a record nor changes one: what is held under
/// an identifier before is held under it after.
pub proof fn lemma_register_keeps_records(
    store: Map<u128, RecordView>,
    bytes: Seq<u8>,
    name: Seq<char>,
    bits: u128,
)
    requires
        store.contains_key(bits),
    ensures
        register_next(store, bytes, name).contains_key(bits),
        register_next(store, bytes, name)[bits] == store[bits],
{
}

/// An upload that fails leaves the registry as it was.
pub proof fn lemma_failed_upload_changes_nothing(
    store: Map<u128, RecordView>,
    bytes: Seq<u8>,
    name: Seq<char>,
)
    requires
        register_outcome(store, bytes, name) is Err,
    ensures
        register_next(store, bytes, name) == store,
{
}

/// After a successful upload, looking up the text of the identifier it
/// returned finds the record of that upload: the category that the sniffer
/// gave the bytes, and the path made from that category and the claimed
/// name.
pub proof fn lemma_registered_is_found(
    store: Map<u128, RecordView>,
    bytes: Seq<u8>,
    name: Seq<char>,
)
    requires
        register_outcome(store, bytes, name) is Ok,
    ensures
        ({
            let id = register_outcome(store, bytes, name)->Ok_0;
            let after = register_next(store, bytes, name);
            &&& category_of(bytes) is Some
            &&& lookup(after, canonical_text(id.bits)) == Some(
                RecordView {
                    destination_path: destination(category_of(bytes)->0, name),
                    media_category: category_of(bytes)->0,
                },
            )
        }),
{
    let id = register_outcome(store, bytes, name)->Ok_0;
    lemma_lookup_by_text(register_next(store, bytes, name), id.bits);
}

/// A text that `validate_uuid` refuses is found in no registry whose
/// identifiers are all of version 5, as those of every `UploadStore` are.
pub proof fn lemma_invalid_text_is_not_found(store: Map<u128, RecordView>, text: Seq<char>)
    requires
        keys_are_version_5(store),
        !is_uuid_v5(text),
    ensures
        lookup(store, text) is None,
{
    assert forall|bits: u128| store.contains_key(bits) implies #[trigger] canonical_text(bits)
        != text by {
        lemma_version_5_text_is_valid(bits);
    }
}

/// A text that is found in a registry whose identifiers are all of version
/// 5 is one that `validate_uuid` accepts, in lower case.
pub proof fn lemma_found_text_is_valid(store: Map<u128, RecordView>, text: Seq<char>)
    requires
        keys_are_version_5(store),
        lookup(store, text) is Some,
    ensures
        is_uuid_v5(text),
        exists|bits: u128| is_version_5_identifier(bits) && text == #[trigger] canonical_text(bits),
{
    if !is_uuid_v5(text) {
        lemma_invalid_text_is_not_found(store, text);
    }
    let bits = choose|bits: u128| store.contains_key(bits) && #[trigger] canonical_text(bits) == text;
    assert(is_version_5_identifier(bits) && text == canonical_text(bits));
}

/// A text that has not the layout of a UUID is found in no registry.
pub proof fn lemma_malformed_text_is_not_found(store: Map<u128, RecordView>, text: Seq<char>)
    requires
        !has_uuid_layout(text),
    ensures
        lookup(store, text) is None,
{
    assert forall|bits: u128| #[trigger] canonical_text(bits) != text by {
        lemma_canonical_text_layout(bits);
    }
}

} // verus!
