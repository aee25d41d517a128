use vstd::prelude::*;

use crate::curseforge::{CurseforgeFile, CurseforgeProject};

verus! {

/// A CurseForge file that its author allows to be downloaded only from the website,
/// so the user has to fetch it by hand.
#[derive(Clone, Debug)]
pub struct ManualCurseforgeDownload {
    pub project_id: u32,
    pub file_id: u32,
    pub name: String,
    pub filename: String,
    pub sha1: [u8; 20],
    pub size: u64,
    pub page_url: String,
}

/// The decimal digit `d` as a character.
pub open spec fn digit_char(d: nat) -> char {
    if d == 0 {
        '0'
    } else if d == 1 {
        '1'
    } else if d == 2 {
        '2'
    } else if d == 3 {
        '3'
    } else if d == 4 {
        '4'
    } else if d == 5 {
        '5'
    } else if d == 6 {
        '6'
    } else if d == 7 {
        '7'
    } else if d == 8 {
        '8'
    } else {
        '9'
    }
}

/// The decimal representation of `n`, without leading zeros.
pub open spec fn decimal(n: nat) -> Seq<char>
    decreases n,
{
    if n < 10 {
        seq![digit_char(n)]
    } else {
        decimal(n / 10).push(digit_char(n % 10))
    }
}

/// `url` with a `/` at its end, added unless it already ends with one.
pub open spec fn with_trailing_slash(url: Seq<char>) -> Seq<char> {
    if url.len() > 0 && url.last() == '/' {
        url
    } else {
        url.push('/')
    }
}

/// The page from which a CurseForge file is downloaded by hand: the project's website
/// followed by `download/` and the file's id.
pub open spec fn spec_download_page_url(website_url: Seq<char>, file_id: nat) -> Seq<char> {
    with_trailing_slash(website_url) + "download/"@ + decimal(file_id)
}

fn digit_str(d: u32) -> (res: &'static str)
    requires
        d < 10,
    ensures
        res@ == seq![digit_char(d as nat)],
{
    if d == 0 {
        proof { reveal_strlit("0"); }
        "0"
    } else if d == 1 {
        proof { reveal_strlit("1"); }
        "1"
    } else if d == 2 {
        proof { reveal_strlit("2"); }
        "2"
    } else if d == 3 {
        proof { reveal_strlit("3"); }
        "3"
    } else if d == 4 {
        proof { reveal_strlit("4"); }
        "4"
    } else if d == 5 {
        proof { reveal_strlit("5"); }
        "5"
    } else if d == 6 {
        proof { reveal_strlit("6"); }
        "6"
    } else if d == 7 {
        proof { reveal_strlit("7"); }
        "7"
    } else if d == 8 {
        proof { reveal_strlit("8"); }
        "8"
    } else {
        proof { reveal_strlit("9"); }
        "9"
    }
}

/// Appends the decimal representation of `n` to `s`.
pub fn push_decimal(s: &mut String, n: u32)
    ensures
        final(s)@ == old(s)@ + decimal(n as nat),
    decreases n,
{
    if n >= 10 {
        push_decimal(s, n / 10);
    }
    s.append(digit_str(n % 10));
    assert(decimal(n as nat) == if n < 10 {
        seq![digit_char(n as nat)]
    } else {
        decimal((n / 10) as nat).push(digit_char((n % 10) as nat))
    });
    assert(s@ =~= old(s)@ + decimal(n as nat));
}

impl ManualCurseforgeDownload {
    pub fn new(file: &CurseforgeFile, project: &CurseforgeProject, hash: [u8; 20]) -> (res: Self)
        ensures
            res.project_id == file.mod_id,
            res.file_id == file.id,
            res.name@ == project.name@,
            res.filename@ == file.file_name@,
            res.sha1@ == hash@,
            res.size == file.file_length,
            res.page_url@ == spec_download_page_url(project.links.website_url@, file.id as nat),
    {
        let mut page_url = project.links.website_url.clone();
        let n: usize = page_url.as_str().unicode_len();
        let ends_with_slash = n > 0 && page_url.as_str().get_char(n - 1) == '/';
        if !ends_with_slash {
            proof { reveal_strlit("/"); }
            page_url.append("/");
        }
        assert(page_url@ == with_trailing_slash(project.links.website_url@));
        proof { reveal_strlit("download/"); }
        page_url.append("download/");
        push_decimal(&mut page_url, file.id);
        assert(page_url@ =~= spec_download_page_url(project.links.website_url@, file.id as nat));
        ManualCurseforgeDownload {
            project_id: file.mod_id,
            file_id: file.id,
            name: project.name.clone(),
            filename: file.file_name.clone(),
            sha1: hash,
            size: file.file_length,
            page_url,
        }
    }
}

} // verus!
