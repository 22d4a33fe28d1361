use vstd::prelude::*;

verus! {

/// The character class of a position in a locator: a field letter (`A`..`R`)
/// at positions 0 and 1, a square digit (`0`..`9`) at positions 2 and 3, and
/// a subsquare letter (`A`..`X`) at positions 4 and 5.
pub open spec fn fits_position(i: int, c: char) -> bool {
    if i == 0 || i == 1 {
        'A' <= c && c <= 'R'
    } else if i == 2 || i == 3 {
        '0' <= c && c <= '9'
    } else if i == 4 || i == 5 {
        'A' <= c && c <= 'X'
    } else {
        false
    }
}

/// The canonical form of a locator: exactly six characters, each in the
/// class of its position.
pub open spec fn valid_locator(s: Seq<char>) -> bool {
    &&& s.len() == 6
    &&& forall|i: int| 0 <= i < s.len() ==> fits_position(i, #[trigger] s[i])
}

fn position_fits(i: usize, c: char) -> (r: bool)
    ensures
        r == fits_position(i as int, c),
{
    if i == 0 || i == 1 {
        'A' <= c && c <= 'R'
    } else if i == 2 || i == 3 {
        '0' <= c && c <= '9'
    } else if i == 4 || i == 5 {
        'A' <= c && c <= 'X'
    } else {
        false
    }
}

/// Whether `maidenhead` is a locator in canonical form: six upper case
/// characters, each in the class of its position.
pub fn is_valid_maidenhead(maidenhead: &str) -> (r: bool)
    ensures
        r == valid_locator(maidenhead@),
{
    let n = maidenhead.unicode_len();
    if n != 6 {
        return false;
    }
    let mut i: usize = 0;
    while i < n
        invariant
            n == maidenhead@.len(),
            n == 6,
            i <= n,
            forall|j: int| 0 <= j < i ==> fits_position(j, #[trigger] maidenhead@[j]),
        decreases n - i,
    {
        if !position_fits(i, maidenhead.get_char(i)) {
            return false;
        }
        i = i + 1;
    }
    true
}


/// A lower case ASCII letter turned to upper case; any other character is
/// kept.
pub open spec fn upper_ascii(c: char) -> char {
    if 'a' <= c && c <= 'z' {
        ((c as int) - 32) as char
    } else {
        c
    }
}

/// The input cut to its first six characters.
pub open spec fn truncated(s: Seq<char>) -> Seq<char> {
    if s.len() > 6 {
        s.take(6)
    } else {
        s
    }
}

/// An input of at most four characters gets the filler `LL` appended, which
/// names the subsquare `LL` when the input is a square.
pub open spec fn padded(s: Seq<char>) -> Seq<char> {
    if s.len() <= 4 {
        s + seq!['L', 'L']
    } else {
        s
    }
}

/// The canonical form of an input: truncated, padded, and in upper case.
pub open spec fn canonical(s: Seq<char>) -> Seq<char> {
    padded(truncated(s)).map_values(|c: char| upper_ascii(c))
}

/// An input is accepted when its canonical form is a full six-character
/// locator.
pub open spec fn accepted(s: Seq<char>) -> bool {
    valid_locator(canonical(s))
}

/// The single kind of failure: the input does not name a locator.
#[derive(PartialEq, Eq, Structural, Clone, Copy, Debug)]
pub enum LocatorError {
    InvalidLocator,
}

/// A six-character locator as a fixed-width record. Each pair holds the
/// longitude part first and the latitude part second, as an offset from `A`
/// (letters) or `0` (digits).
#[derive(PartialEq, Eq, Structural, Clone, Copy, Debug)]
pub struct Locator {
    /// Field letter for longitude: 20 degrees each.
    pub lon_field: u8,
    /// Field letter for latitude: 10 degrees each.
    pub lat_field: u8,
    /// Square digit for longitude: 2 degrees each.
    pub lon_square: u8,
    /// Square digit for latitude: 1 degree each.
    pub lat_square: u8,
    /// Subsquare letter for longitude: 5 minutes each.
    pub lon_subsquare: u8,
    /// Subsquare letter for latitude: 5 minutes each.
    pub lat_subsquare: u8,
}

/// A coordinate pair in ten-thousandths of a degree, each truncated toward
/// zero: `latitude_e4 == 403333` stands for 40.3333 degrees.
#[derive(PartialEq, Eq, Structural, Clone, Copy, Debug)]
pub struct Coordinate {
    pub latitude_e4: i32,
    pub longitude_e4: i32,
}

/// The offset of a letter from `A`, or of a digit from `0`.
pub open spec fn letter_offset(c: char) -> int {
    (c as int) - ('A' as int)
}

pub open spec fn digit_offset(c: char) -> int {
    (c as int) - ('0' as int)
}

/// The record that a canonical six-character locator spells.
pub open spec fn decode(t: Seq<char>) -> Locator {
    Locator {
        lon_field: letter_offset(t[0]) as u8,
        lat_field: letter_offset(t[1]) as u8,
        lon_square: digit_offset(t[2]) as u8,
        lat_square: digit_offset(t[3]) as u8,
        lon_subsquare: letter_offset(t[4]) as u8,
        lat_subsquare: letter_offset(t[5]) as u8,
    }
}

/// `value * 2500 / 3` rounded toward zero: a count of twelfths of a degree
/// in ten-thousandths of a degree.
pub open spec fn twelfths_to_e4(value: int) -> int {
    if value >= 0 {
        value * 2500 / 3
    } else {
        -((-value) * 2500 / 3)
    }
}

impl Locator {
    pub open spec fn wf(self) -> bool {
        &&& self.lon_field < 18
        &&& self.lat_field < 18
        &&& self.lon_square < 10
        &&& self.lat_square < 10
        &&& self.lon_subsquare < 24
        &&& self.lat_subsquare < 24
    }

    /// The longitude of the cell's south-west corner, in twelfths of a degree
    /// (a subsquare is 5 minutes, one twelfth of a degree), counted from -180.
    pub open spec fn lon_twelfths(self) -> int {
        240 * self.lon_field + 24 * self.lon_square + self.lon_subsquare - 2160
    }

    /// The latitude of the cell's south-west corner, in twelfths of a degree,
    /// counted from -90.
    pub open spec fn lat_twelfths(self) -> int {
        120 * self.lat_field + 12 * self.lat_square + self.lat_subsquare - 1080
    }

    pub open spec fn coordinate(self) -> Coordinate {
        Coordinate {
            latitude_e4: twelfths_to_e4(self.lat_twelfths()) as i32,
            longitude_e4: twelfths_to_e4(self.lon_twelfths()) as i32,
        }
    }
}

/// What normalizing and validating an input gives.
pub open spec fn parse_result(s: Seq<char>) -> Result<Locator, LocatorError> {
    if accepted(s) {
        Ok(decode(canonical(s)))
    } else {
        Err(LocatorError::InvalidLocator)
    }
}

/// What converting an input gives.
pub open spec fn convert_result(s: Seq<char>) -> Result<Coordinate, LocatorError> {
    match parse_result(s) {
        Ok(l) => Ok(l.coordinate()),
        Err(e) => Err(e),
    }
}

fn to_upper_ascii(c: char) -> (r: char)
    ensures
        r == upper_ascii(c),
{
    if 'a' <= c && c <= 'z' {
        ((c as u32 - 32) as u8) as char
    } else {
        c
    }
}


fn twelfths_e4(t: i32) -> (r: i32)
    requires
        -2160 <= t <= 2160,
    ensures
        r as int == twelfths_to_e4(t as int),
        -1800000 <= r <= 1800000,
{
    if t >= 0 {
        let m = t as u32;
        ((m * 2500) / 3) as i32
    } else {
        let m = (-t) as u32;
        -(((m * 2500) / 3) as i32)
    }
}

impl Locator {
    /// Normalizes and validates an input of any length and case: the input is
    /// cut to six characters, one of at most four characters gets the filler
    /// `LL`, lower case ASCII letters count as upper case, and the result must
    /// be a full six-character locator.
    pub fn parse(input: &str) -> (r: Result<Locator, LocatorError>)
        ensures
            r == parse_result(input@),
            r matches Ok(l) ==> l.wf(),
    {
        let n = input.unicode_len();
        let len: usize = if n > 6 {
            6
        } else {
            n
        };
        proof {
            assert(truncated(input@).len() == len);
            assert(canonical(input@).len() == padded(truncated(input@)).len());
        }
        if len != 4 && len != 6 {
            return Err(LocatorError::InvalidLocator);
        }
        let mut t: Vec<char> = Vec::new();
        let mut i: usize = 0;
        while i < len
            invariant
                len == truncated(input@).len(),
                len <= n == input@.len(),
                i <= len,
                t@.len() == i,
                forall|j: int| 0 <= j < i ==> #[trigger] t@[j] == upper_ascii(input@[j]),
            decreases len - i,
        {
            let c = input.get_char(i);
            t.push(to_upper_ascii(c));
            i = i + 1;
        }
        if len == 4 {
            t.push('L');
            t.push('L');
        }
        proof {
            let w = padded(truncated(input@));
            assert forall|j: int| 0 <= j < 6 implies #[trigger] t@[j] == canonical(input@)[j] by {
                if j < len {
                    assert(w[j] == input@[j]);
                } else {
                    assert(w[j] == 'L');
                }
            }
            assert(t@ =~= canonical(input@));
        }
        let mut k: usize = 0;
        while k < 6
            invariant
                t@ == canonical(input@),
                t@.len() == 6,
                k <= 6,
                forall|j: int| 0 <= j < k ==> fits_position(j, #[trigger] t@[j]),
            decreases 6 - k,
        {
            if !position_fits(k, t[k]) {
                return Err(LocatorError::InvalidLocator);
            }
            k = k + 1;
        }
        proof {
            assert(fits_position(0, t@[0]));
            assert(fits_position(1, t@[1]));
            assert(fits_position(2, t@[2]));
            assert(fits_position(3, t@[3]));
            assert(fits_position(4, t@[4]));
            assert(fits_position(5, t@[5]));
        }
        Ok(
            Locator {
                lon_field: (t[0] as u32 - 'A' as u32) as u8,
                lat_field: (t[1] as u32 - 'A' as u32) as u8,
                lon_square: (t[2] as u32 - '0' as u32) as u8,
                lat_square: (t[3] as u32 - '0' as u32) as u8,
                lon_subsquare: (t[4] as u32 - 'A' as u32) as u8,
                lat_subsquare: (t[5] as u32 - 'A' as u32) as u8,
            },
        )
    }

    /// The longitude of the cell's south-west corner in ten-thousandths of a
    /// degree, truncated toward zero.
    pub fn longitude_e4(&self) -> (r: i32)
        requires
            self.wf(),
        ensures
            r as int == twelfths_to_e4(self.lon_twelfths()),
            r == self.coordinate().longitude_e4,
    {
        let t: i32 = 240 * (self.lon_field as i32) + 24 * (self.lon_square as i32) + (
        self.lon_subsquare as i32) - 2160;
        twelfths_e4(t)
    }

    /// The latitude of the cell's south-west corner in ten-thousandths of a
    /// degree, truncated toward zero.
    pub fn latitude_e4(&self) -> (r: i32)
        requires
            self.wf(),
        ensures
            r as int == twelfths_to_e4(self.lat_twelfths()),
            r == self.coordinate().latitude_e4,
    {
        let t: i32 = 120 * (self.lat_field as i32) + 12 * (self.lat_square as i32) + (
        self.lat_subsquare as i32) - 1080;
        twelfths_e4(t)
    }
}

/// Converts a locator of any length and case to the south-west corner of its
/// cell, as latitude and longitude in ten-thousandths of a degree.
pub fn maidenhead_to_lat_long(maidenhead: String) -> (r: Result<Coordinate, LocatorError>)
    ensures
        r == convert_result(maidenhead@),
{
    match Locator::parse(maidenhead.as_str()) {
        Ok(l) => Ok(Coordinate { latitude_e4: l.latitude_e4(), longitude_e4: l.longitude_e4() }),
        Err(e) => Err(e),
    }
}


proof fn lemma_canonical_fixed(l: Seq<char>)
    requires
        valid_locator(l),
    ensures
        canonical(l) == l,
{
    assert forall|i: int| 0 <= i < 6 implies #[trigger] canonical(l)[i] == l[i] by {
        assert(fits_position(i, l[i]));
    }
    assert(canonical(l) =~= l);
}

proof fn lemma_twelfths_to_e4_bounds(v: int)
    requires
        -2160 <= v < 2160,
    ensures
        -1800000 <= twelfths_to_e4(v) < 1800000,
        -1080 <= v ==> -900000 <= twelfths_to_e4(v),
        v < 1080 ==> twelfths_to_e4(v) < 900000,
{
    if v >= 0 {
        assert(v * 2500 / 3 < 1800000) by (nonlinear_arith)
            requires
                0 <= v < 2160,
        ;
        if v < 1080 {
            assert(v * 2500 / 3 < 900000) by (nonlinear_arith)
                requires
                    0 <= v < 1080,
            ;
        }
    } else {
        assert((-v) * 2500 / 3 <= 1800000) by (nonlinear_arith)
            requires
                0 < -v <= 2160,
        ;
        if -1080 <= v {
            assert((-v) * 2500 / 3 <= 900000) by (nonlinear_arith)
                requires
                    0 < -v <= 1080,
            ;
        }
    }
}

/// Every six-character locator in canonical form is accepted, and decodes to
/// the record that its characters spell.
pub proof fn lemma_canonical_locator_accepted(l: Seq<char>)
    requires
        valid_locator(l),
    ensures
        accepted(l),
        parse_result(l) == Ok::<Locator, LocatorError>(decode(l)),
        decode(l).wf(),
        convert_result(l) is Ok,
{
    lemma_canonical_fixed(l);
    assert(fits_position(0, l[0]));
    assert(fits_position(1, l[1]));
    assert(fits_position(2, l[2]));
    assert(fits_position(3, l[3]));
    assert(fits_position(4, l[4]));
    assert(fits_position(5, l[5]));
}

/// A canonical six-character locator converts to a longitude in [-180, 180)
/// and a latitude in [-90, 90) degrees. Latitude stays below 90 only outside
/// the topmost degree: field letter `R`, square digit `9` and a subsquare
/// letter from `M` on give 90 degrees or more, so those are left out.
pub proof fn lemma_canonical_locator_in_range(l: Seq<char>)
    requires
        valid_locator(l),
        !(l[1] == 'R' && l[3] == '9' && l[5] >= 'M'),
    ensures
        convert_result(l) matches Ok(c) && -1800000 <= c.longitude_e4 < 1800000 && -900000
            <= c.latitude_e4 < 900000,
{
    lemma_canonical_locator_accepted(l);
    let d = decode(l);
    lemma_twelfths_to_e4_bounds(d.lon_twelfths());
    lemma_twelfths_to_e4_bounds(d.lat_twelfths());
}

/// Conversion is a function of its input: equal inputs give equal results.
pub proof fn lemma_convert_deterministic(a: Seq<char>, b: Seq<char>)
    requires
        a == b,
    ensures
        convert_result(a) == convert_result(b),
{
}

/// Normalizing is idempotent: the canonical form of an accepted input is its
/// own canonical form, and converts to the same coordinate as the input.
pub proof fn lemma_canonical_idempotent(s: Seq<char>)
    requires
        accepted(s),
    ensures
        canonical(canonical(s)) == canonical(s),
        convert_result(canonical(s)) == convert_result(s),
{
    lemma_canonical_fixed(canonical(s));
}

/// Characters after the sixth are ignored.
pub proof fn lemma_excess_ignored(s: Seq<char>)
    requires
        s.len() > 6,
    ensures
        convert_result(s) == convert_result(s.take(6)),
{
    assert(truncated(s) =~= truncated(s.take(6)));
}

/// A four-character input converts as if the filler `LL` had been written
/// after it.
pub proof fn lemma_square_padded(s: Seq<char>)
    requires
        s.len() == 4,
    ensures
        convert_result(s) == convert_result(s + seq!['L', 'L']),
{
    assert(padded(truncated(s)) =~= padded(truncated(s + seq!['L', 'L'])));
}

/// A character outside the class of its position, once the input is
/// truncated, padded and put in upper case, makes the input fail.
pub proof fn lemma_wrong_class_rejected(s: Seq<char>, i: int)
    requires
        0 <= i < canonical(s).len(),
        !fits_position(i, canonical(s)[i]),
    ensures
        convert_result(s) == Err::<Coordinate, LocatorError>(LocatorError::InvalidLocator),
{
}

/// An input of fewer than four characters fails: the filler cannot bring it
/// to six characters.
pub proof fn lemma_short_input_rejected(s: Seq<char>)
    requires
        s.len() < 4,
    ensures
        convert_result(s) == Err::<Coordinate, LocatorError>(LocatorError::InvalidLocator),
{
}

} // verus!
