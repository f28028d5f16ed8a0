use vstd::prelude::*;
use vstd::string::StringExecFns;
use crate::config::S3Config;
use crate::text::{decimal, ends_with, has_prefix, has_suffix, push_decimal, starts_with};

verus! {

/// Why an S3 request was not sent.
#[derive(Debug, Clone, Copy, PartialEq, Eq, Structural)]
pub enum S3Error {
    /// The S3 configuration is incomplete (see `S3Config::is_valid`).
    InvalidConfig,
    /// The target path of an upload is empty.
    EmptyTarget,
}

/// Where an S3 request goes: a bucket and an object key (or key prefix, for listings).
pub struct S3Target {
    pub bucket: String,
    pub key: String,
}

/// `prefix` and `name` joined by exactly the one "/" that `prefix` may already end with.
pub open spec fn object_key(prefix: Seq<char>, name: Seq<char>) -> Seq<char> {
    if ends_with(prefix, seq!['/']) {
        prefix + name
    } else {
        prefix + seq!['/'] + name
    }
}

/// `prefix` as a folder: with a trailing "/" added when it has none.
pub open spec fn folder(prefix: Seq<char>) -> Seq<char> {
    if ends_with(prefix, seq!['/']) {
        prefix
    } else {
        prefix + seq!['/']
    }
}

fn slash() -> (s: &'static str)
    ensures
        s@ == seq!['/'],
{
    proof {
        reveal_strlit("/");
    }
    "/"
}

/// The object key for `name` under `prefix`.
pub fn join_key(prefix: &str, name: &str) -> (key: String)
    ensures
        key@ == object_key(prefix@, name@),
{
    let mut key = String::from_str(prefix);
    if !has_suffix(prefix, slash()) {
        key.append(slash());
    }
    key.append(name);
    key
}

/// The folder form of `prefix` (see `folder`).
pub fn folder_prefix(prefix: &str) -> (p: String)
    ensures
        p@ == folder(prefix@),
{
    let mut p = String::from_str(prefix);
    if !has_suffix(prefix, slash()) {
        p.append(slash());
    }
    p
}

/// The keys of a listing that name files: present keys that do not end with "/", in order.
pub open spec fn file_keys(keys: Seq<Option<String>>) -> Seq<Seq<char>>
    decreases keys.len(),
{
    if keys.len() == 0 {
        Seq::empty()
    } else {
        let rest = file_keys(keys.drop_last());
        match keys.last() {
            Some(k) => if ends_with(k@, seq!['/']) {
                rest
            } else {
                rest.push(k@)
            },
            None => rest,
        }
    }
}

/// The listing keeps exactly the keys that name files: every present key that
/// does not end with "/" is in the result, every entry of the result is such a
/// key, and there is one entry per such key, in listing order.
pub proof fn lemma_file_keys_are_the_file_objects(keys: Seq<Option<String>>)
    ensures
        forall|i: int|
            0 <= i < keys.len() && (#[trigger] keys[i]) is Some && !ends_with(
                keys[i]->0@,
                seq!['/'],
            ) ==> file_keys(keys).contains(keys[i]->0@),
        forall|j: int|
            0 <= j < file_keys(keys).len() ==> exists|i: int|
                0 <= i < keys.len() && keys[i] is Some && keys[i]->0@ == #[trigger] file_keys(
                    keys,
                )[j] && !ends_with(keys[i]->0@, seq!['/']),
        file_keys(keys).len() <= keys.len(),
        file_keys(keys.push(None)) == file_keys(keys),
    decreases keys.len(),
{
    assert(keys.push(None).drop_last() =~= keys);
    if keys.len() > 0 {
        let init = keys.drop_last();
        lemma_file_keys_are_the_file_objects(init);
        let rest = file_keys(init);
        assert forall|i: int|
            0 <= i < keys.len() && (#[trigger] keys[i]) is Some && !ends_with(
                keys[i]->0@,
                seq!['/'],
            ) implies file_keys(keys).contains(keys[i]->0@) by {
            if i < keys.len() - 1 {
                assert(init[i] == keys[i]);
                let k = choose|k: int| 0 <= k < rest.len() && rest[k] == keys[i]->0@;
                assert(file_keys(keys)[k] == rest[k]);
            } else {
                let f = file_keys(keys);
                assert(f[f.len() - 1] == keys[i]->0@);
            }
        }
        assert forall|j: int| 0 <= j < file_keys(keys).len() implies exists|i: int|
            0 <= i < keys.len() && keys[i] is Some && keys[i]->0@ == #[trigger] file_keys(keys)[j]
                && !ends_with(keys[i]->0@, seq!['/']) by {
            if j < rest.len() {
                assert(file_keys(keys)[j] == rest[j]);
                let i = choose|i: int|
                    0 <= i < init.len() && init[i] is Some && init[i]->0@ == rest[j] && !ends_with(
                        init[i]->0@,
                        seq!['/'],
                    );
                assert(keys[i] == init[i]);
            } else {
                assert(keys[keys.len() - 1]->0@ == file_keys(keys)[j]);
            }
        }
    }
}

/// The upload target for a file named `file_name` (`S3Client::put_file`).
/// No validity check is made on the configuration.
pub fn put_file_target(config: &S3Config, file_name: &str) -> (t: S3Target)
    ensures
        t.bucket == config.bucket,
        t.key@ == object_key(config.prefix@, file_name@),
{
    S3Target { bucket: config.bucket.clone(), key: join_key(config.prefix.as_str(), file_name) }
}

/// The upload target for data written to `target_path` (`S3Client::put_data`):
/// refused when the configuration is invalid, then when the path is empty.
pub fn put_data_target(config: &S3Config, target_path: &str) -> (r: Result<S3Target, S3Error>)
    ensures
        match r {
            Ok(t) => {
                &&& config.spec_is_valid()
                &&& target_path@.len() > 0
                &&& t.bucket == config.bucket
                &&& t.key@ == object_key(config.prefix@, target_path@)
            },
            Err(S3Error::InvalidConfig) => !config.spec_is_valid(),
            Err(S3Error::EmptyTarget) => config.spec_is_valid() && target_path@.len() == 0,
        },
{
    if !config.is_valid() {
        return Err(S3Error::InvalidConfig);
    }
    if target_path.is_empty() {
        return Err(S3Error::EmptyTarget);
    }
    Ok(S3Target { bucket: config.bucket.clone(), key: join_key(config.prefix.as_str(), target_path) })
}

/// The listing target (`S3Client::list_files`): the bucket and the prefix as a
/// folder; refused when the configuration is invalid.
pub fn list_target(config: &S3Config) -> (r: Result<S3Target, S3Error>)
    ensures
        match r {
            Ok(t) => {
                &&& config.spec_is_valid()
                &&& t.bucket == config.bucket
                &&& t.key@ == folder(config.prefix@)
            },
            Err(e) => !config.spec_is_valid() && e == S3Error::InvalidConfig,
        },
{
    if !config.is_valid() {
        return Err(S3Error::InvalidConfig);
    }
    Ok(S3Target { bucket: config.bucket.clone(), key: folder_prefix(config.prefix.as_str()) })
}

/// A target whose key is the prefix immediately followed by `path`, with no
/// separator added (the direct upload and listing of the S3 sink).
pub fn direct_target(config: &S3Config, path: &str) -> (t: S3Target)
    ensures
        t.bucket == config.bucket,
        t.key@ == config.prefix@ + path@,
{
    let mut key = String::from_str(config.prefix.as_str());
    key.append(path);
    S3Target { bucket: config.bucket.clone(), key }
}

/// The custom endpoint to send requests to, when the configuration names one.
pub fn client_endpoint(config: &S3Config) -> (e: Option<String>)
    ensures
        match e {
            Some(u) => config.end_point_url@.len() > 0 && u == config.end_point_url,
            None => config.end_point_url@.len() == 0,
        },
{
    if config.end_point_url.as_str().is_empty() {
        None
    } else {
        Some(config.end_point_url.clone())
    }
}

/// The file keys of a listing's objects (see `file_keys`).
pub fn listed_files(keys: Vec<Option<String>>) -> (files: Vec<String>)
    ensures
        files@.map_values(|s: String| s@) == file_keys(keys@),
{
    let mut files: Vec<String> = Vec::new();
    let mut i: usize = 0;
    while i < keys.len()
        invariant
            i <= keys.len(),
            files@.map_values(|s: String| s@) == file_keys(keys@.take(i as int)),
        decreases keys.len() - i,
    {
        assert(keys@.take(i + 1).drop_last() =~= keys@.take(i as int));
        assert(keys@.take(i + 1).last() == keys@[i as int]);
        match &keys[i] {
            Some(k) => {
                if !has_suffix(k.as_str(), slash()) {
                    files.push(k.clone());
                }
            },
            None => {},
        }
        assert(files@.map_values(|s: String| s@) =~= file_keys(keys@.take(i + 1)));
        i = i + 1;
    }
    assert(keys@.take(i as int) =~= keys@);
    files
}

/// One page of a listing: its file keys are added to `files`; the result is
/// the continuation token to request the next page with, or `None` when the
/// listing is complete (the page was not truncated, or it gave no token).
pub fn list_step(
    files: &mut Vec<String>,
    page_keys: Vec<Option<String>>,
    is_truncated: Option<bool>,
    next_token: Option<String>,
) -> (next: Option<String>)
    ensures
        final(files)@.map_values(|s: String| s@) == old(files)@.map_values(|s: String| s@)
            + file_keys(page_keys@),
        next == if is_truncated == Some(true) {
            next_token
        } else {
            None
        },
{
    let ghost before = files@.map_values(|s: String| s@);
    let mut page = listed_files(page_keys);
    let ghost added = page@.map_values(|s: String| s@);
    files.append(&mut page);
    assert(files@.map_values(|s: String| s@) =~= before + added);
    match is_truncated {
        Some(true) => next_token,
        _ => None,
    }
}

/// An object key never doubles the separator: it is the prefix's folder form
/// followed by the name, and the folder form is idempotent.
pub proof fn lemma_key_is_folder_then_name(prefix: Seq<char>, name: Seq<char>)
    ensures
        object_key(prefix, name) == folder(prefix) + name,
        folder(folder(prefix)) == folder(prefix),
        ends_with(folder(prefix), seq!['/']),
        starts_with(object_key(prefix, name), prefix),
        ends_with(object_key(prefix, name), name),
{
    let f = prefix + seq!['/'];
    assert(f.subrange(f.len() - 1, f.len() as int) =~= seq!['/']);
    assert(object_key(prefix, name).subrange(0, prefix.len() as int) =~= prefix);
    let k = object_key(prefix, name);
    assert(k.subrange(k.len() - name.len(), k.len() as int) =~= name);
    if !ends_with(prefix, seq!['/']) {
        assert(object_key(prefix, name) =~= folder(prefix) + name);
    }
}

/// The staging file of the S3 sink: records are written to a hidden local
/// file, which is uploaded and replaced once it grows past the upload size.
pub struct TmpFile {
    /// The current staging file's name; empty when there is none.
    pub name: String,
}

/// What the S3 sink does with the next record.
pub enum TmpStep {
    /// Append the record to this staging file.
    Write { file: String },
    /// Upload this full staging file, switch to a new one and append the record there.
    UploadAndRotate { upload: String },
}

/// ".tmp_log_"
pub open spec fn tmp_prefix() -> Seq<char> {
    seq!['.', 't', 'm', 'p', '_', 'l', 'o', 'g', '_']
}

/// ".log"
pub open spec fn log_suffix() -> Seq<char> {
    seq!['.', 'l', 'o', 'g']
}

/// A staging file name: ".tmp_log_" ... ".log".
pub open spec fn is_tmp_name(name: Seq<char>) -> bool {
    starts_with(name, tmp_prefix()) && ends_with(name, log_suffix())
}

/// The staging file name stamped with `millis`: ".tmp_log_<millis>.log".
pub open spec fn tmp_name_for(millis: nat) -> Seq<char> {
    tmp_prefix() + decimal(millis) + log_suffix()
}

fn tmp_prefix_text() -> (s: &'static str)
    ensures
        s@ == tmp_prefix(),
{
    proof {
        reveal_strlit(".tmp_log_");
    }
    ".tmp_log_"
}

fn log_suffix_text() -> (s: &'static str)
    ensures
        s@ == log_suffix(),
{
    proof {
        reveal_strlit(".log");
    }
    ".log"
}

/// The first staging file name in `names`, if any.
pub open spec fn first_tmp_name(names: Seq<Seq<char>>) -> Option<Seq<char>>
    decreases names.len(),
{
    if names.len() == 0 {
        None
    } else if is_tmp_name(names[0]) {
        Some(names[0])
    } else {
        first_tmp_name(names.drop_first())
    }
}

impl TmpFile {
    /// The staging file name for a clock reading of `millis` milliseconds since the epoch.
    pub fn generate_tmp_filename(millis: u64) -> (name: String)
        ensures
            name@ == tmp_name_for(millis as nat),
    {
        let mut name = String::from_str(tmp_prefix_text());
        push_decimal(&mut name, millis);
        name.append(log_suffix_text());
        name
    }

    /// The first staging file left over in a directory listing, if any.
    pub fn find_existing_tmp_file(names: &Vec<String>) -> (found: Option<String>)
        ensures
            match found {
                Some(n) => first_tmp_name(names@.map_values(|s: String| s@)) == Some(n@),
                None => first_tmp_name(names@.map_values(|s: String| s@)) is None,
            },
    {
        let ghost all = names@.map_values(|s: String| s@);
        let mut i: usize = 0;
        assert(all.skip(0) =~= all);
        while i < names.len()
            invariant
                i <= names.len(),
                all == names@.map_values(|s: String| s@),
                first_tmp_name(all) == first_tmp_name(all.skip(i as int)),
            decreases names.len() - i,
        {
            assert(all.skip(i as int)[0] == names@[i as int]@);
            if has_prefix(names[i].as_str(), tmp_prefix_text()) && has_suffix(
                names[i].as_str(),
                log_suffix_text(),
            ) {
                return Some(names[i].clone());
            }
            assert(all.skip(i as int).drop_first() =~= all.skip(i + 1));
            i = i + 1;
        }
        assert(all.skip(i as int) =~= Seq::<Seq<char>>::empty());
        None
    }

    /// Chooses the staging file at start-up. A sink that already has one keeps it;
    /// otherwise it adopts a leftover file found on disk, or else takes `fresh`,
    /// which must then be created. Returns whether `fresh` was taken.
    pub fn init_tmp_file(&mut self, existing: Option<String>, fresh: String) -> (created: bool)
        ensures
            old(self).name@.len() > 0 ==> final(self).name == old(self).name && !created,
            old(self).name@.len() == 0 ==> match existing {
                Some(e) => final(self).name == e && !created,
                None => final(self).name == fresh && created,
            },
    {
        if !self.name.as_str().is_empty() {
            return false;
        }
        match existing {
            Some(e) => {
                self.name = e;
                false
            },
            None => {
                self.name = fresh;
                true
            },
        }
    }

    /// What to do with the next record, given the staging file's current size:
    /// upload and replace the file once it is larger than `put_size`, else write to it.
    pub fn handle(&self, size: u64, put_size: u64) -> (step: TmpStep)
        requires
            self.name@.len() > 0,
        ensures
            match step {
                TmpStep::Write { file } => size <= put_size && file == self.name,
                TmpStep::UploadAndRotate { upload } => size > put_size && upload == self.name,
            },
    {
        if size > put_size {
            TmpStep::UploadAndRotate { upload: self.name.clone() }
        } else {
            TmpStep::Write { file: self.name.clone() }
        }
    }

    /// The staging file to delete before switching to a new one: the current
    /// file, or `None` when there is none.
    pub fn previous_file(&self) -> (previous: Option<String>)
        ensures
            match previous {
                Some(p) => self.name@.len() > 0 && p == self.name,
                None => self.name@.len() == 0,
            },
    {
        if self.name.as_str().is_empty() {
            None
        } else {
            Some(self.name.clone())
        }
    }

    /// Records the outcome of switching to the staging file `fresh`: when the
    /// previous file was removed and `fresh` created (`switched`), `fresh`
    /// becomes the staging file; otherwise the current one stays.
    pub fn update_tmp_file_name(&mut self, fresh: String, switched: bool)
        ensures
            switched ==> final(self).name == fresh,
            !switched ==> final(self).name == old(self).name,
    {
        if switched {
            self.name = fresh;
        }
    }
}

/// A generated staging file name is recognised as a staging file, so a sink
/// that restarts finds and reuses the file it was writing.
pub proof fn lemma_generated_name_is_found(millis: nat)
    ensures
        is_tmp_name(tmp_name_for(millis)),
        first_tmp_name(seq![tmp_name_for(millis)]) == Some(tmp_name_for(millis)),
{
    let n = tmp_name_for(millis);
    assert(n.subrange(0, tmp_prefix().len() as int) =~= tmp_prefix());
    assert(n.subrange(n.len() - log_suffix().len(), n.len() as int) =~= log_suffix());
}

} // verus!
