use vstd::prelude::*;

use crate::decimal::{int_part, frac_part, Decimal};
use crate::text::{lemma_pow10_monotonic, lemma_pow10_positive, pow10, pow10_u64};
use std::collections::HashMap;

verus! {

/// What the reader shows of a manga.
pub struct MangaReaderResponse {
    pub manga_id: String,
    pub titles: HashMap<String, Vec<String>>,
    pub kind: String,
    pub description: Option<String>,
    pub chapters: Vec<ReaderChapter>,
    pub favorite: bool,
    /// The id of the chapter to open.
    pub open_chapter: String,
    pub progress: Decimal,
}

/// A chapter in the reader; `chapter` is its number.
pub struct ReaderChapter {
    pub chapter_id: String,
    pub titles: Vec<String>,
    pub chapter: Decimal,
    pub sources: Vec<String>,
    pub release_date: Option<String>,
    /// Version id to version chapter id.
    pub versions: HashMap<String, String>,
}

/// `k` is the position of the first chapter with id `id`, or the number of
/// chapters when none has it.
pub open spec fn first_with_id(chs: Seq<ReaderChapter>, id: Seq<char>, k: int) -> bool {
    0 <= k <= chs.len() && (forall|j: int| 0 <= j < k ==> (#[trigger] chs[j]).chapter_id@ != id) && (k
        < chs.len() ==> chs[k].chapter_id@ == id)
}

/// The floor of a chapter number as a `u32`: 0 for negative numbers, and
/// `u32::MAX` for numbers beyond it.
pub open spec fn floor_u32(d: Decimal) -> nat {
    if d.negative {
        0
    } else if int_part(d) > u32::MAX {
        u32::MAX as nat
    } else {
        int_part(d)
    }
}

/// The largest floor among the chapters, 0 when there are none.
pub open spec fn max_floor(chs: Seq<ReaderChapter>) -> nat
    decreases chs.len(),
{
    if chs.len() == 0 {
        0
    } else {
        let m = max_floor(chs.drop_last());
        let f = floor_u32(chs.last().chapter);
        if f > m {
            f
        } else {
            m
        }
    }
}

/// Whether some chapter is numbered exactly `n`.
pub open spec fn has_number(chs: Seq<ReaderChapter>, n: nat) -> bool {
    exists|i: int|
        0 <= i < chs.len() && !(#[trigger] chs[i]).chapter.negative && frac_part(chs[i].chapter) == 0
            && int_part(chs[i].chapter) == n
}

/// The numbers from 1 up to, not including, `bound` that no chapter has, in
/// increasing order.
pub open spec fn missing_below(chs: Seq<ReaderChapter>, bound: nat) -> Seq<u32>
    decreases bound,
{
    if bound <= 1 {
        Seq::empty()
    } else {
        let n = (bound - 1) as nat;
        missing_below(chs, n) + (if has_number(chs, n) {
            Seq::empty()
        } else {
            seq![n as u32]
        })
    }
}

fn same_id(a: &String, b: &str) -> (r: bool)
    ensures
        r == (a@ == b@),
{
    *a == String::from_str(b)
}

/// The integer part of a decimal, capped at `u64::MAX`, and whether its
/// fraction is zero.
fn split_decimal(d: &Decimal) -> (r: (u64, bool))
    ensures
        r.0 as nat == (if int_part(*d) > u64::MAX {
            u64::MAX as nat
        } else {
            int_part(*d)
        }),
        r.1 == (frac_part(*d) == 0),
{
    if d.scale <= 0 {
        if d.digits == 0 {
            proof {
                vstd::arithmetic::mul::lemma_mul_basics(pow10((-d.scale) as nat) as int);
            }
            return (0, true);
        }
        let e: u128 = if d.scale == 0 {
            0
        } else {
            ((-(d.scale + 1)) as u128) + 1
        };
        assert(e as nat == (-d.scale) as nat);
        if e >= 20 {
            proof {
                lemma_pow10_monotonic(20, e as nat);
                reveal_with_fuel(pow10, 21);
                let dd = d.digits as nat;
                let pe = pow10(e as nat);
                assert(dd * pe >= pe) by (nonlinear_arith)
                    requires
                        dd >= 1,
                ;
            }
            return (u64::MAX, true);
        }
        let p = pow10_u64(e as u32);
        proof {
            lemma_pow10_monotonic(e as nat, 19);
            crate::text::lemma_pow10_18();
            let dd = d.digits as nat;
            assert(dd * p <= 0xffff_ffff_ffff_ffffnat * 10000000000000000000nat) by (nonlinear_arith)
                requires
                    dd <= 0xffff_ffff_ffff_ffffnat,
                    p <= 10000000000000000000nat,
            ;
        }
        let v: u128 = (d.digits as u128) * (p as u128);
        if v > u64::MAX as u128 {
            (u64::MAX, true)
        } else {
            (v as u64, true)
        }
    } else if d.scale >= 20 {
        proof {
            assert(pow10(d.scale as nat) > u64::MAX) by {
                lemma_pow10_monotonic(20, d.scale as nat);
                reveal_with_fuel(pow10, 21);
            }
            vstd::arithmetic::div_mod::lemma_basic_div(d.digits as int, pow10(d.scale as nat) as int);
            vstd::arithmetic::div_mod::lemma_small_mod(d.digits as nat, pow10(d.scale as nat));
        }
        (0, d.digits == 0)
    } else {
        let p = pow10_u64(d.scale as u32);
        proof {
            lemma_pow10_positive(d.scale as nat);
        }
        (d.digits / p, d.digits % p == 0)
    }
}

fn floor_of(d: &Decimal) -> (r: u32)
    ensures
        r as nat == floor_u32(*d),
{
    if d.negative {
        return 0;
    }
    let (i, _) = split_decimal(d);
    if i > u32::MAX as u64 {
        u32::MAX
    } else {
        i as u32
    }
}

fn has_number_exec(chs: &Vec<ReaderChapter>, n: u32) -> (r: bool)
    ensures
        r == has_number(chs@, n as nat),
{
    let len = chs.len();
    let mut i: usize = 0;
    while i < len
        invariant
            len == chs@.len(),
            i <= len,
            forall|j: int|
                0 <= j < i ==> !(!(#[trigger] chs@[j]).chapter.negative && frac_part(chs@[j].chapter) == 0
                    && int_part(chs@[j].chapter) == n as nat),
        decreases len - i,
    {
        let c = &chs[i].chapter;
        let (ip, whole) = split_decimal(c);
        if !c.negative && whole && ip == n as u64 {
            return true;
        }
        i = i + 1;
    }
    false
}

proof fn lemma_first_unique(chs: Seq<ReaderChapter>, id: Seq<char>, k1: int, k2: int)
    requires
        first_with_id(chs, id, k1),
        first_with_id(chs, id, k2),
    ensures
        k1 == k2,
{
    if k1 < k2 {
        assert(chs[k1].chapter_id@ != id);
    } else if k2 < k1 {
        assert(chs[k2].chapter_id@ != id);
    }
}

impl MangaReaderResponse {
    /// The position of the first chapter with id `id`, or the number of
    /// chapters when none has it.
    fn first_index(&self, id: &str) -> (k: usize)
        ensures
            first_with_id(self.chapters@, id@, k as int),
    {
        let n = self.chapters.len();
        let mut i: usize = 0;
        while i < n
            invariant
                n == self.chapters@.len(),
                i <= n,
                forall|j: int| 0 <= j < i ==> (#[trigger] self.chapters@[j]).chapter_id@ != id@,
            decreases n - i,
        {
            if same_id(&self.chapters[i].chapter_id, id) {
                return i;
            }
            i = i + 1;
        }
        n
    }

    /// The first chapter with id `id`.
    pub fn get_chapter(&self, id: &str) -> (r: Option<&ReaderChapter>)
        ensures
            forall|k: int| #[trigger] first_with_id(self.chapters@, id@, k) ==> (if k < self.chapters@.len() {
                r matches Some(c) && *c == self.chapters@[k]
            } else {
                r is None
            }),
    {
        let i = self.first_index(id);
        proof {
            assert forall|k: int| #[trigger] first_with_id(self.chapters@, id@, k) implies k == i by {
                lemma_first_unique(self.chapters@, id@, k, i as int);
            }
        }
        if i < self.chapters.len() {
            Some(&self.chapters[i])
        } else {
            None
        }
    }

    /// The chapter before the first one with id `id` (before the end when no
    /// chapter has it), looked up again by its id; none for the first chapter.
    pub fn get_prev_chapter(&self, id: &str) -> (r: Option<&ReaderChapter>)
        ensures
            forall|k: int| #[trigger] first_with_id(self.chapters@, id@, k) ==> (if k == 0 {
                r is None
            } else {
                forall|m: int|
                    #[trigger] first_with_id(self.chapters@, self.chapters@[k - 1].chapter_id@, m)
                        ==> (r matches Some(c) && *c == self.chapters@[m])
            }),
    {
        let i = self.first_index(id);
        proof {
            assert forall|k: int| #[trigger] first_with_id(self.chapters@, id@, k) implies k == i by {
                lemma_first_unique(self.chapters@, id@, k, i as int);
            }
        }
        if i == 0 {
            None
        } else {
            let r = self.get_chapter(self.chapters[i - 1].chapter_id.as_str());
            proof {
                let t = self.chapters@[i - 1].chapter_id@;
                assert forall|m: int| #[trigger] first_with_id(self.chapters@, t, m) implies m < self.chapters@.len() by {
                    if m >= self.chapters@.len() {
                        assert(self.chapters@[i - 1].chapter_id@ != t);
                    }
                }
            }
            r
        }
    }

    /// The chapter after the first one with id `id`; none when that is the
    /// last chapter or no chapter has the id.
    pub fn get_next_chapter(&self, id: &str) -> (r: Option<&ReaderChapter>)
        ensures
            forall|k: int| #[trigger] first_with_id(self.chapters@, id@, k) ==> (if k + 1 < self.chapters@.len() {
                r matches Some(c) && *c == self.chapters@[k + 1]
            } else {
                r is None
            }),
    {
        let i = self.first_index(id);
        proof {
            assert forall|k: int| #[trigger] first_with_id(self.chapters@, id@, k) implies k == i by {
                lemma_first_unique(self.chapters@, id@, k, i as int);
            }
        }
        if i < self.chapters.len() && i + 1 < self.chapters.len() {
            Some(&self.chapters[i + 1])
        } else {
            None
        }
    }

    pub fn no_chapters(&self) -> (r: bool)
        ensures
            r == (self.chapters@.len() == 0),
    {
        self.chapters.len() == 0
    }

    /// The whole numbers from 1 up to, not including, the floor of the largest
    /// chapter number that no chapter is numbered exactly, in increasing order.
    pub fn missing_chapters(&self) -> (r: Vec<u32>)
        ensures
            r@ == missing_below(self.chapters@, max_floor(self.chapters@)),
    {
        let n = self.chapters.len();
        let mut max: u32 = 0;
        let mut i: usize = 0;
        while i < n
            invariant
                n == self.chapters@.len(),
                i <= n,
                max as nat == max_floor(self.chapters@.subrange(0, i as int)),
            decreases n - i,
        {
            let f = floor_of(&self.chapters[i].chapter);
            proof {
                let s = self.chapters@.subrange(0, i + 1);
                assert(s.drop_last() =~= self.chapters@.subrange(0, i as int));
            }
            if f > max {
                max = f;
            }
            i = i + 1;
        }
        proof {
            assert(self.chapters@.subrange(0, n as int) =~= self.chapters@);
        }
        let mut missing: Vec<u32> = Vec::new();
        let mut num: u32 = 1;
        while num < max
            invariant
                1 <= num,
                num <= max || (max == 0 && num == 1),
                max as nat == max_floor(self.chapters@),
                missing@ == missing_below(self.chapters@, num as nat),
            decreases max - num,
        {
            if !has_number_exec(&self.chapters, num) {
                missing.push(num);
            }
            proof {
                assert(missing@ =~= missing_below(self.chapters@, (num + 1) as nat));
            }
            num = num + 1;
        }
        proof {
            if max == 0 {
                assert(missing_below(self.chapters@, 0) =~= missing_below(self.chapters@, 1));
            }
        }
        missing
    }
}

/// A request for the reader's view of a manga, opened at a chapter when one
/// is given.
pub struct MangaReaderRequest {
    pub manga_id: String,
    pub chapter_id: Option<String>,
}

/// A request for the pages of a chapter version.
pub struct ReaderPageRequest {
    pub chapter_version_id: String,
}

/// The pages of a chapter version, by page number from 1.
pub struct ReaderPageResponse {
    pub version_id: String,
    pub hide_top: Decimal,
    pub hide_bottom: Decimal,
    pub pages: HashMap<u32, ReaderPage>,
}

/// Where turning to a page leads: the previous chapter, a page, or the next
/// chapter.
pub enum Action<'a> {
    Prev,
    Page(&'a ReaderPage),
    Next,
}

impl ReaderPageResponse {
    /// Page 0 leads back to the previous chapter, a page beyond the last one
    /// on to the next chapter.
    pub fn get_page(&self, page: u32) -> (r: Action)
        ensures
            page < 1 ==> r is Prev,
            page >= 1 && self.pages@.contains_key(page) ==> (r matches Action::Page(p) && *p
                == self.pages@[page]),
            page >= 1 && !self.pages@.contains_key(page) ==> r is Next,
    {
        if page < 1 {
            Action::Prev
        } else {
            match self.pages.get(&page) {
                Some(v) => Action::Page(v),
                None => Action::Next,
            }
        }
    }
}

/// One page image and its size in pixels.
#[derive(Clone)]
pub struct ReaderPage {
    pub page_id: String,
    pub width: u32,
    pub height: u32,
    pub ext: String,
    pub translation: bool,
    pub progress: Progress,
}

impl ReaderPage {
    /// A blank page of the given size.
    pub fn new(w: u32, h: u32) -> (r: ReaderPage)
        ensures
            r.page_id@ == Seq::<char>::empty(),
            r.width == w,
            r.height == h,
            r.ext@ == "gif"@,
            !r.translation,
            r.progress == (Progress {
                width_start: Decimal { negative: false, digits: 0, scale: 0 },
                width_end: Decimal { negative: false, digits: 0, scale: 0 },
                height_start: Decimal { negative: false, digits: 0, scale: 0 },
                height_end: Decimal { negative: false, digits: 0, scale: 0 },
            }),
    {
        let zero = Decimal { negative: false, digits: 0, scale: 0 };
        ReaderPage {
            page_id: String::new(),
            width: w,
            height: h,
            ext: String::from_str("gif"),
            translation: false,
            progress: Progress { width_start: zero, width_end: zero, height_start: zero, height_end: zero },
        }
    }
}

/// How far into a page the reader is, as fractions of its width and height.
#[derive(Clone, Copy, Debug, PartialEq, Eq, Structural)]
pub struct Progress {
    pub width_start: Decimal,
    pub width_end: Decimal,
    pub height_start: Decimal,
    pub height_end: Decimal,
}

/// A translated text area on a page.
pub struct TranslationArea {
    pub translated_text: HashMap<String, String>,
    pub min_x: u32,
    pub min_y: u32,
    pub max_x: u32,
    pub max_y: u32,
    pub text_color: [u8; 3],
    pub outline_color: [u8; 3],
    pub background: String,
}

} // verus!
