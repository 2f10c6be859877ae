//! Names, paths and tool argument lists, built byte by byte.
//!
//! Fragment files, the concatenation list file, the final artifact and the
//! download locator all have exactly specified byte contents, so the caller
//! that performs the real file and process work has no naming decisions of
//! its own to make.

use vstd::prelude::*;

verus! {

/// The bytes of an ASCII character sequence, one byte per character.
pub open spec fn ascii_view(s: Seq<char>) -> Seq<u8> {
    Seq::new(s.len(), |i: int| s[i] as u8)
}

/// The bytes of an ASCII string slice.
pub fn ascii_bytes(s: &str) -> (v: Vec<u8>)
    requires
        vstd::string::is_ascii(s),
    ensures
        v@ == ascii_view(s@),
{
    proof {
        vstd::string::is_ascii_spec_bytes(s);
    }
    let bs = s.as_bytes();
    let v = vstd::slice::slice_to_vec(bs);
    proof {
        assert(v@ =~= ascii_view(s@));
    }
    v
}

/// A fresh byte vector with the same contents as `src`.
pub fn copy_bytes(src: &Vec<u8>) -> (v: Vec<u8>)
    ensures
        v@ == src@,
{
    vstd::slice::slice_to_vec(src.as_slice())
}

/// Whether two byte vectors hold the same bytes.
pub fn bytes_eq(a: &Vec<u8>, b: &Vec<u8>) -> (r: bool)
    ensures
        r == (a@ == b@),
{
    let n = a.len();
    if n != b.len() {
        return false;
    }
    let mut i: usize = 0;
    while i < n
        invariant
            0 <= i <= n,
            n == a@.len(),
            n == b@.len(),
            forall|j: int| 0 <= j < i ==> a@[j] == b@[j],
        decreases n - i,
    {
        if a[i] != b[i] {
            return false;
        }
        i = i + 1;
    }
    proof {
        assert(a@ =~= b@);
    }
    true
}

/// The decimal digits of `n`, most significant first.
pub open spec fn dec_rep(n: nat) -> Seq<u8>
    decreases n,
{
    if n < 10 {
        seq![(48 + n) as u8]
    } else {
        dec_rep((n / 10) as nat).push((48 + n % 10) as u8)
    }
}

/// Write `n` in decimal.
pub fn dec_bytes(n: u64) -> (v: Vec<u8>)
    ensures
        v@ == dec_rep(n as nat),
    decreases n,
{
    if n < 10 {
        let mut v: Vec<u8> = Vec::new();
        v.push(48 + (n as u8));
        proof {
            assert(v@ =~= dec_rep(n as nat));
        }
        v
    } else {
        proof {
            assert(n / 10 < n) by (nonlinear_arith)
                requires
                    n >= 10,
            ;
        }
        let mut v = dec_bytes(n / 10);
        v.push(48 + ((n % 10) as u8));
        proof {
            assert(v@ =~= dec_rep(n as nat));
        }
        v
    }
}

/// Name of the fragment file of the chunk numbered `k` (1-based).
pub open spec fn spec_fragment_name(k: nat) -> Seq<u8> {
    ascii_view("chunk_"@) + dec_rep(k) + ascii_view(".wav"@)
}

/// Build the fragment file name of the chunk numbered `k` (1-based).
pub fn fragment_name(k: u64) -> (v: Vec<u8>)
    ensures
        v@ == spec_fragment_name(k as nat),
{
    proof {
        reveal_strlit("chunk_");
        reveal_strlit(".wav");
    }
    let mut v = ascii_bytes("chunk_");
    let mut d = dec_bytes(k);
    v.append(&mut d);
    let mut e = ascii_bytes(".wav");
    v.append(&mut e);
    v
}

/// One line of the concatenation list file: `file '<fragment>'` and a
/// line feed, quoting the fragment file of the chunk numbered `k`.
pub open spec fn spec_manifest_entry(k: nat) -> Seq<u8> {
    ascii_view("file '"@) + spec_fragment_name(k) + seq![39u8, 10u8]
}

/// The whole concatenation list file for `n` chunks: one entry per chunk,
/// in chunk index order.
pub open spec fn spec_manifest(n: nat) -> Seq<u8>
    decreases n,
{
    if n == 0 {
        Seq::empty()
    } else {
        spec_manifest((n - 1) as nat) + spec_manifest_entry(n)
    }
}

/// Build the concatenation list file for `n` chunks.
pub fn manifest_content(n: u64) -> (v: Vec<u8>)
    ensures
        v@ == spec_manifest(n as nat),
{
    let mut v: Vec<u8> = Vec::new();
    proof {
        assert(v@ =~= spec_manifest(0));
    }
    let mut k: u64 = 0;
    while k < n
        invariant
            0 <= k <= n,
            v@ == spec_manifest(k as nat),
        decreases n - k,
    {
        k = k + 1;
        proof {
            reveal_strlit("file '");
        }
        let mut e = ascii_bytes("file '");
        v.append(&mut e);
        let mut f = fragment_name(k);
        v.append(&mut f);
        v.push(39);
        v.push(10);
        proof {
            assert(v@ =~= spec_manifest(k as nat));
        }
    }
    v
}

/// Name of the concatenation list file inside the job directory.
pub open spec fn spec_list_name() -> Seq<u8> {
    ascii_view("concat_list.txt"@)
}

/// Build the concatenation list file name.
pub fn list_name() -> (v: Vec<u8>)
    ensures
        v@ == spec_list_name(),
{
    proof {
        reveal_strlit("concat_list.txt");
    }
    ascii_bytes("concat_list.txt")
}

/// Name of the final artifact: the requested output name if one was given,
/// otherwise `output_` and the job id; either way with `.wav` appended.
pub open spec fn spec_final_name(requested: Option<Seq<u8>>, job_id: Seq<u8>) -> Seq<u8> {
    (match requested {
        Option::Some(r) => r,
        Option::None => ascii_view("output_"@) + job_id,
    }) + ascii_view(".wav"@)
}

/// Build the final artifact name.
pub fn final_name(requested: Option<&Vec<u8>>, job_id: &Vec<u8>) -> (v: Vec<u8>)
    ensures
        v@ == spec_final_name(
            match requested {
                Option::Some(r) => Option::Some(r@),
                Option::None => Option::None,
            },
            job_id@,
        ),
{
    let mut v: Vec<u8> = match requested {
        Option::Some(r) => copy_bytes(r),
        Option::None => {
            proof {
                reveal_strlit("output_");
            }
            let mut b = ascii_bytes("output_");
            let mut j = copy_bytes(job_id);
            b.append(&mut j);
            b
        },
    };
    proof {
        reveal_strlit(".wav");
    }
    let mut e = ascii_bytes(".wav");
    v.append(&mut e);
    v
}

/// The retrieval locator of a finished artifact:
/// `/download/audio/<job id>/<artifact>`.
pub open spec fn spec_download_path(job_id: Seq<u8>, artifact: Seq<u8>) -> Seq<u8> {
    ascii_view("/download/audio/"@) + job_id + seq![47u8] + artifact
}

/// Build the retrieval locator of a finished artifact.
pub fn download_path(job_id: &Vec<u8>, artifact: &Vec<u8>) -> (v: Vec<u8>)
    ensures
        v@ == spec_download_path(job_id@, artifact@),
{
    proof {
        reveal_strlit("/download/audio/");
    }
    let mut v = ascii_bytes("/download/audio/");
    let mut j = copy_bytes(job_id);
    v.append(&mut j);
    v.push(47);
    let mut a = copy_bytes(artifact);
    v.append(&mut a);
    proof {
        assert(v@ =~= spec_download_path(job_id@, artifact@));
    }
    v
}

/// Storage name of an uploaded file: the upload id, a hyphen, and the
/// sanitized client file name.
pub open spec fn spec_storage_name(file_id: Seq<u8>, filename: Seq<u8>) -> Seq<u8> {
    file_id + seq![45u8] + filename
}

/// Build the storage name of an uploaded file.
pub fn storage_name(file_id: &Vec<u8>, filename: &Vec<u8>) -> (v: Vec<u8>)
    ensures
        v@ == spec_storage_name(file_id@, filename@),
{
    let mut v = copy_bytes(file_id);
    v.push(45);
    let mut f = copy_bytes(filename);
    v.append(&mut f);
    proof {
        assert(v@ =~= spec_storage_name(file_id@, filename@));
    }
    v
}

/// The argument list of one synthesis call: write a wave file to
/// `fragment_path`, then `--`, then the segment text.
pub open spec fn spec_synth_args(fragment_path: Seq<u8>, text: Seq<u8>) -> Seq<Seq<u8>> {
    seq![ascii_view("-w"@), fragment_path, ascii_view("--"@), text]
}

/// Build the argument list of one synthesis call.
pub fn synth_args(fragment_path: &Vec<u8>, text: &Vec<u8>) -> (r: Vec<Vec<u8>>)
    ensures
        r@.map_values(|a: Vec<u8>| a@) == spec_synth_args(fragment_path@, text@),
{
    proof {
        reveal_strlit("-w");
        reveal_strlit("--");
    }
    let mut r: Vec<Vec<u8>> = Vec::new();
    r.push(ascii_bytes("-w"));
    r.push(copy_bytes(fragment_path));
    r.push(ascii_bytes("--"));
    r.push(copy_bytes(text));
    proof {
        assert(r@.map_values(|a: Vec<u8>| a@) =~= spec_synth_args(fragment_path@, text@));
    }
    r
}

/// The argument list of the concatenation call: concatenate the entries of
/// the list file, copying streams without re-encoding, into `artifact`.
pub open spec fn spec_concat_args(artifact: Seq<u8>) -> Seq<Seq<u8>> {
    seq![
        ascii_view("-f"@),
        ascii_view("concat"@),
        ascii_view("-safe"@),
        ascii_view("0"@),
        ascii_view("-i"@),
        spec_list_name(),
        ascii_view("-c"@),
        ascii_view("copy"@),
        artifact,
    ]
}

/// Build the argument list of the concatenation call.
pub fn concat_args(artifact: &Vec<u8>) -> (r: Vec<Vec<u8>>)
    ensures
        r@.map_values(|a: Vec<u8>| a@) == spec_concat_args(artifact@),
{
    proof {
        reveal_strlit("-f");
        reveal_strlit("concat");
        reveal_strlit("-safe");
        reveal_strlit("0");
        reveal_strlit("-i");
        reveal_strlit("-c");
        reveal_strlit("copy");
    }
    let mut r: Vec<Vec<u8>> = Vec::new();
    r.push(ascii_bytes("-f"));
    r.push(ascii_bytes("concat"));
    r.push(ascii_bytes("-safe"));
    r.push(ascii_bytes("0"));
    r.push(ascii_bytes("-i"));
    r.push(list_name());
    r.push(ascii_bytes("-c"));
    r.push(ascii_bytes("copy"));
    r.push(copy_bytes(artifact));
    proof {
        assert(r@.map_values(|x: Vec<u8>| x@) =~= spec_concat_args(artifact@));
    }
    r
}

} // verus!
