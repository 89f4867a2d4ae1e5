//! Keyboard configuration as the core logic reads it: the resolved layout
//! (key matrix positions and physical positions in centi-key-units), the
//! key-position to LED-index map, and the dimensions derived from them.
//!
//! Loading and parsing the configuration files is the caller's business;
//! the library receives plain values and derives matrix dimensions and the
//! LED count, validating the invariant that every mapped LED index lies
//! below the LED count.

use vstd::prelude::*;
use crate::effects::BoundKey;
use crate::effects::LedState;
use crate::effects::spec_default_led;

verus! {

/// The host's own configuration file: which keyboard and layout to use,
/// and how to find the device.
#[derive(Clone, Debug)]
pub struct Config {
    /// Keyboard directory name.
    pub kb: String,
    /// Name of the layout to resolve.
    pub layout: String,
    /// HID usage page of the raw endpoint.
    pub usage_page: u16,
    /// HID usage of the raw endpoint.
    pub usage: u16,
}

/// USB identity of the keyboard.
#[derive(Clone, Debug)]
pub struct QMKUSBInfo {
    /// USB vendor id.
    pub vid: u16,
    /// USB product id.
    pub pid: u16,
    /// Device version string.
    pub device_version: String,
}

/// One key of the resolved layout: its matrix position and its physical
/// position, in hundredths of a key unit.
#[derive(Clone, Copy, Debug)]
pub struct QMKKey {
    /// (row, column) in the key matrix.
    pub matrix: (u8, u8),
    /// Horizontal position, in hundredths of a key unit.
    pub x_c: u32,
    /// Vertical position, in hundredths of a key unit.
    pub y_c: u32,
}

/// A resolved physical layout: its keys.
#[derive(Clone, Debug)]
pub struct QMKLayout {
    /// The keys of the layout.
    pub layout: Vec<QMKKey>,
}

/// The key-position to LED-index map: indexed `[row][column]`, a negative
/// entry means the key drives no LED.
pub type LEDMatrix = Vec<Vec<i16>>;

/// The LED map as a mathematical value.
pub open spec fn spec_led_matrix(m: LEDMatrix) -> Seq<Seq<i16>> {
    m@.map(|i: int, r: Vec<i16>| r@)
}

/// Number of matrix rows the keys span: one past the largest row index.
pub open spec fn spec_rows(keys: Seq<QMKKey>) -> int
    decreases keys.len(),
{
    if keys.len() == 0 {
        0
    } else {
        let r = keys.last().matrix.0 + 1;
        let rest = spec_rows(keys.drop_last());
        if r > rest {
            r as int
        } else {
            rest
        }
    }
}

/// Number of matrix columns the keys span: one past the largest column
/// index.
pub open spec fn spec_cols(keys: Seq<QMKKey>) -> int
    decreases keys.len(),
{
    if keys.len() == 0 {
        0
    } else {
        let c = keys.last().matrix.1 + 1;
        let rest = spec_cols(keys.drop_last());
        if c > rest {
            c as int
        } else {
            rest
        }
    }
}

/// The LED map entry under a key.
pub open spec fn spec_led_entry(m: Seq<Seq<i16>>, k: QMKKey) -> i16 {
    m[k.matrix.0 as int][k.matrix.1 as int]
}

/// Every key's matrix position lies inside the LED map.
pub open spec fn spec_in_bounds(keys: Seq<QMKKey>, m: Seq<Seq<i16>>) -> bool {
    forall|i: int|
        0 <= i < keys.len() ==> (#[trigger] keys[i]).matrix.0 < m.len() && keys[i].matrix.1 < m[
        keys[i].matrix.0 as int].len()
}

/// How many keys drive a LED: those whose map entry is non-negative.
pub open spec fn spec_led_count(keys: Seq<QMKKey>, m: Seq<Seq<i16>>) -> int
    decreases keys.len(),
{
    if keys.len() == 0 {
        0
    } else {
        spec_led_count(keys.drop_last(), m) + if spec_led_entry(m, keys.last()) >= 0 {
            1int
        } else {
            0int
        }
    }
}

/// Every mapped LED index lies below the LED count.
pub open spec fn spec_leds_valid(keys: Seq<QMKKey>, m: Seq<Seq<i16>>, led_count: int) -> bool {
    forall|i: int|
        0 <= i < keys.len() ==> (spec_led_entry(m, #[trigger] keys[i]) >= 0 ==> spec_led_entry(
            m,
            keys[i],
        ) < led_count)
}

/// The key bound to LED slot `j`: the last key of the layout whose map
/// entry is `j`, as the binding pass overwrites earlier keys.
pub open spec fn spec_bind(keys: Seq<QMKKey>, m: Seq<Seq<i16>>, j: int) -> Option<BoundKey>
    decreases keys.len(),
{
    if keys.len() == 0 {
        None
    } else {
        let k = keys.last();
        if spec_led_entry(m, k) == j {
            Some(spec_bound_key(k))
        } else {
            spec_bind(keys.drop_last(), m, j)
        }
    }
}

/// The binding record a key leaves on its LED slot.
pub open spec fn spec_bound_key(k: QMKKey) -> BoundKey {
    BoundKey { row: k.matrix.0, col: k.matrix.1, x_c: k.x_c, y_c: k.y_c }
}

/// The keyboard configuration the core works from: the host's own
/// configuration, the resolved layout, the LED map, and the dimensions
/// derived from them once at construction.
pub struct KBConfig {
    /// The host's own configuration file.
    pub host_config: Config,
    /// The resolved layout.
    pub layout: QMKLayout,
    /// The key-position to LED-index map.
    pub matrix: LEDMatrix,
    /// Number of matrix rows, derived once at construction.
    pub rows: u8,
    /// Number of matrix columns, derived once at construction.
    pub columns: u8,
    /// Number of LEDs driven by mapped keys, derived once at construction.
    pub led_count: u8,
}

/// Whether a layout and a LED map describe a configuration the core can
/// hold: every key inside the map, dimensions and LED count within a
/// byte, and every mapped LED index below the LED count.
pub open spec fn spec_config_valid(keys: Seq<QMKKey>, m: Seq<Seq<i16>>) -> bool {
    &&& spec_in_bounds(keys, m)
    &&& spec_rows(keys) <= 255
    &&& spec_cols(keys) <= 255
    &&& spec_led_count(keys, m) <= 255
    &&& spec_leds_valid(keys, m, spec_led_count(keys, m))
}

impl KBConfig {
    /// The derived fields agree with the keys and the map, every key lies
    /// inside the map and inside the derived dimensions, and every mapped
    /// LED index lies below the LED count.
    pub open spec fn wf(self) -> bool {
        let keys = self.layout.layout@;
        let m = spec_led_matrix(self.matrix);
        &&& spec_in_bounds(keys, m)
        &&& self.rows == spec_rows(keys)
        &&& self.columns == spec_cols(keys)
        &&& self.led_count == spec_led_count(keys, m)
        &&& spec_leds_valid(keys, m, self.led_count as int)
        &&& forall|i: int|
            0 <= i < keys.len() ==> (#[trigger] keys[i]).matrix.0 < self.rows && keys[i].matrix.1
                < self.columns
    }

    /// Derives a configuration from the resolved layout and the LED map.
    /// Returns `None` when a key lies outside the map, when a dimension
    /// or the LED count leaves a byte, or when a mapped LED index is not
    /// below the LED count; such a configuration would later fault the
    /// state it sizes.
    pub fn new(host_config: Config, layout: QMKLayout, matrix: LEDMatrix) -> (r: Option<KBConfig>)
        ensures
            r is Some <==> spec_config_valid(layout.layout@, spec_led_matrix(matrix)),
            r matches Some(c) ==> c.wf() && c.layout == layout && c.matrix@ == matrix@
                && c.host_config == host_config,
    {
        let keys: &Vec<QMKKey> = &layout.layout;
        let mut rows: u16 = 0;
        let mut columns: u16 = 0;
        let mut led_count: usize = 0;

        let ghost m = spec_led_matrix(matrix);

        let mut i: usize = 0;
        while i < keys.len()
            invariant
                i <= keys@.len(),
                keys@ == layout.layout@,
                m == spec_led_matrix(matrix),
                spec_in_bounds(keys@.take(i as int), m),
                rows == spec_rows(keys@.take(i as int)),
                columns == spec_cols(keys@.take(i as int)),
                led_count == spec_led_count(keys@.take(i as int), m),
                led_count <= i,
            decreases keys@.len() - i,
        {
            let k = keys[i];
            proof {
                assert(keys@.take(i + 1).drop_last() =~= keys@.take(i as int));
                assert(keys@.take(i + 1).last() == keys@[i as int]);
            }
            let (kr, kc) = k.matrix;
            if (kr as usize) >= matrix.len() {
                proof {
                    assert(m.len() == matrix@.len());
                    assert(spec_in_bounds(keys@, m) ==> (keys@[i as int]).matrix.0 < m.len());
                    assert(!spec_config_valid(keys@, m));
                }
                return None;
            }
            let row_map: &Vec<i16> = &matrix[kr as usize];
            if (kc as usize) >= row_map.len() {
                proof {
                    assert(m[kr as int] == matrix@[kr as int]@);
                    assert(spec_in_bounds(keys@, m) ==> (keys@[i as int]).matrix.1 < m[kr as int].len());
                    assert(!spec_config_valid(keys@, m));
                }
                return None;
            }
            if (kr as u16) + 1 > rows {
                rows = (kr as u16) + 1;
            }
            if (kc as u16) + 1 > columns {
                columns = (kc as u16) + 1;
            }
            if row_map[kc as usize] >= 0 {
                led_count = led_count + 1;
            }
            proof {
                assert(spec_in_bounds(keys@.take(i + 1), m));
            }
            i = i + 1;
        }
        proof {
            assert(keys@.take(keys@.len() as int) =~= keys@);
        }

        if rows > 255 || columns > 255 || led_count > 255 {
            proof {
                assert(!spec_config_valid(keys@, m));
            }
            return None;
        }

        let mut i: usize = 0;
        while i < keys.len()
            invariant
                i <= keys@.len(),
                keys@ == layout.layout@,
                m == spec_led_matrix(matrix),
                spec_in_bounds(keys@, m),
                led_count == spec_led_count(keys@, m),
                forall|j: int|
                    0 <= j < i ==> (spec_led_entry(m, #[trigger] keys@[j]) >= 0 ==> spec_led_entry(
                        m,
                        keys@[j],
                    ) < led_count as int),
            decreases keys@.len() - i,
        {
            let k = keys[i];
            let (kr, kc) = k.matrix;
            let idx: i16 = matrix[kr as usize][kc as usize];
            if idx >= 0 && (idx as usize) >= led_count {
                proof {
                    assert(m[kr as int] == matrix@[kr as int]@);
                    assert(spec_led_entry(m, keys@[i as int]) == idx);
                    assert(!spec_leds_valid(keys@, m, spec_led_count(keys@, m)));
                    assert(!spec_config_valid(keys@, m));
                }
                return None;
            }
            i = i + 1;
        }

        proof {
            lemma_dims_bound_keys(keys@);
            assert(spec_config_valid(keys@, m));
        }

        Some(
            KBConfig {
                host_config,
                layout,
                matrix,
                rows: rows as u8,
                columns: columns as u8,
                led_count: led_count as u8,
            },
        )
    }

    /// The resolved layout.
    pub fn layout(&self) -> (r: &QMKLayout)
        ensures
            *r == self.layout,
    {
        &self.layout
    }

    /// Number of matrix rows.
    pub fn rows(&self) -> (r: u8)
        ensures
            r == self.rows,
    {
        self.rows
    }

    /// Number of matrix columns.
    pub fn columns(&self) -> (r: u8)
        ensures
            r == self.columns,
    {
        self.columns
    }

    /// Number of LEDs driven by mapped keys.
    pub fn led_count(&self) -> (r: u8)
        ensures
            r == self.led_count,
    {
        self.led_count
    }
}

/// Every key's indices lie below the derived dimensions.
pub proof fn lemma_dims_bound_keys(keys: Seq<QMKKey>)
    ensures
        forall|i: int|
            0 <= i < keys.len() ==> (#[trigger] keys[i]).matrix.0 < spec_rows(keys) && keys[i].matrix.1
                < spec_cols(keys),
    decreases keys.len(),
{
    if keys.len() > 0 {
        lemma_dims_bound_keys(keys.drop_last());
        lemma_rows_monotonic(keys);
        lemma_cols_monotonic(keys);
        assert forall|i: int| 0 <= i < keys.len() implies (#[trigger] keys[i]).matrix.0 < spec_rows(
            keys,
        ) && keys[i].matrix.1 < spec_cols(keys) by {
            if i < keys.len() - 1 {
                assert(keys.drop_last()[i] == keys[i]);
            }
        }
    }
}

/// Dropping the last key does not grow the row span.
pub proof fn lemma_rows_monotonic(keys: Seq<QMKKey>)
    requires
        keys.len() > 0,
    ensures
        spec_rows(keys.drop_last()) <= spec_rows(keys),
        keys.last().matrix.0 < spec_rows(keys),
{
}

/// Dropping the last key does not grow the column span.
pub proof fn lemma_cols_monotonic(keys: Seq<QMKKey>)
    requires
        keys.len() > 0,
    ensures
        spec_cols(keys.drop_last()) <= spec_cols(keys),
        keys.last().matrix.1 < spec_cols(keys),
{
}

/// Builds the LED slots a configuration describes: `led_count` slots,
/// each at the default color, each bound to the last key of the layout
/// that maps to it.
pub fn build_led_state(cfg: &KBConfig) -> (r: Vec<LedState>)
    requires
        cfg.wf(),
    ensures
        r@.len() == cfg.led_count as int,
        forall|j: int|
            0 <= j < r@.len() ==> (#[trigger] r@[j]).color == spec_default_led().color && r@[j].key
                == spec_bind(cfg.layout.layout@, spec_led_matrix(cfg.matrix), j),
{
    let count: u8 = cfg.led_count();
    let ghost m = spec_led_matrix(cfg.matrix);
    let keys: &Vec<QMKKey> = &cfg.layout.layout;

    let mut out: Vec<LedState> = Vec::new();
    let mut j: usize = 0;
    while j < count as usize
        invariant
            j <= count as int,
            out@.len() == j,
            forall|t: int|
                0 <= t < j ==> #[trigger] out@[t] == spec_default_led(),
        decreases count as int - j,
    {
        out.push(LedState::default());
        j = j + 1;
    }

    let mut i: usize = 0;
    while i < keys.len()
        invariant
            i <= keys@.len(),
            cfg.wf(),
            m == spec_led_matrix(cfg.matrix),
            keys@ == cfg.layout.layout@,
            out@.len() == cfg.led_count as int,
            forall|t: int|
                0 <= t < out@.len() ==> (#[trigger] out@[t]).color == spec_default_led().color
                    && out@[t].key == spec_bind(keys@.take(i as int), m, t),
        decreases keys@.len() - i,
    {
        let k = keys[i];
        proof {
            assert(keys@.take(i + 1).drop_last() =~= keys@.take(i as int));
            assert(keys@.take(i + 1).last() == keys@[i as int]);
        }
        let (kr, kc) = k.matrix;
        let idx: i16 = cfg.matrix[kr as usize][kc as usize];
        if idx >= 0 {
            let slot = &mut out[idx as usize];
            let cur = *slot;
            *slot = LedState {
                color: cur.color,
                key: Some(BoundKey { row: kr, col: kc, x_c: k.x_c, y_c: k.y_c }),
            };
        }
        i = i + 1;
    }
    proof {
        assert(keys@.take(keys@.len() as int) =~= keys@);
    }
    out
}

} // verus!
