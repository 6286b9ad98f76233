//! SPICE sessions: the connection state, the frame buffer, and what a
//! launch attempt leads to.

use vstd::prelude::*;

verus! {

/// Connection state of a SPICE session.
#[derive(Debug, Clone, Copy, PartialEq, Eq, Structural)]
pub enum SpiceConnectionState {
    /// Not connected.
    Disconnected,
    /// Connection in progress.
    Connecting,
    /// Connected and rendering.
    Connected,
    /// A connection error occurred.
    Error,
}

/// The display text of a state.
pub open spec fn state_text(s: SpiceConnectionState) -> Seq<char> {
    match s {
        SpiceConnectionState::Disconnected => "Disconnected"@,
        SpiceConnectionState::Connecting => "Connecting"@,
        SpiceConnectionState::Connected => "Connected"@,
        SpiceConnectionState::Error => "Error"@,
    }
}

impl SpiceConnectionState {
    /// The state's display text.
    pub fn to_string(&self) -> (s: String)
        ensures
            s@ == state_text(*self),
    {
        match self {
            SpiceConnectionState::Disconnected => String::from_str("Disconnected"),
            SpiceConnectionState::Connecting => String::from_str("Connecting"),
            SpiceConnectionState::Connected => String::from_str("Connected"),
            SpiceConnectionState::Error => String::from_str("Error"),
        }
    }

    /// Whether the reconnect banner is shown (and the toolbar buttons
    /// hidden): after a disconnect or an error.
    pub fn shows_reconnect(&self) -> (b: bool)
        ensures
            b == (*self == SpiceConnectionState::Disconnected || *self
                == SpiceConnectionState::Error),
    {
        match self {
            SpiceConnectionState::Disconnected | SpiceConnectionState::Error => true,
            _ => false,
        }
    }
}

/// The text drawn over a session that is not showing frames.
pub open spec fn status_text_spec(s: SpiceConnectionState, embedded: bool) -> Seq<char> {
    match s {
        SpiceConnectionState::Disconnected => "Session ended"@,
        SpiceConnectionState::Connecting => "Connecting..."@,
        SpiceConnectionState::Connected => if embedded {
            "Connected"@
        } else {
            "Session running in external window"@
        },
        SpiceConnectionState::Error => "Connection error"@,
    }
}

/// The text drawn over a session that is not showing frames.
pub fn status_text(s: SpiceConnectionState, embedded: bool) -> (t: String)
    ensures
        t@ == status_text_spec(s, embedded),
{
    match s {
        SpiceConnectionState::Disconnected => String::from_str("Session ended"),
        SpiceConnectionState::Connecting => String::from_str("Connecting..."),
        SpiceConnectionState::Connected => if embedded {
            String::from_str("Connected")
        } else {
            String::from_str("Session running in external window")
        },
        SpiceConnectionState::Error => String::from_str("Connection error"),
    }
}

impl Default for SpiceConnectionState {
    fn default() -> (s: Self)
        ensures
            s == SpiceConnectionState::Disconnected,
    {
        SpiceConnectionState::Disconnected
    }
}

/// What launching an external viewer led to.
#[derive(Debug, Clone, PartialEq, Eq)]
pub enum ViewerLaunch {
    /// A viewer was started.
    Launched,
    /// No viewer is installed.
    NoViewerFound,
    /// The viewer failed to start, with the reason.
    LaunchFailed(String),
}

/// The state, the error reported to the user, and the error returned,
/// after a launch attempt.
pub struct ConnectOutcome {
    /// The new connection state.
    pub state: SpiceConnectionState,
    /// The message passed to the error listener, if any.
    pub reported: Option<String>,
    /// The connection error returned to the caller, if any.
    pub error: Option<String>,
}

/// The outcome of a launch attempt.
pub open spec fn connect_outcome_spec(l: ViewerLaunch) -> (SpiceConnectionState, Option<Seq<char>>, Option<Seq<char>>) {
    match l {
        ViewerLaunch::Launched => (SpiceConnectionState::Connected, None, None),
        ViewerLaunch::NoViewerFound => (
            SpiceConnectionState::Error,
            Some("No SPICE viewer found (install remote-viewer or virt-viewer)"@),
            Some("No SPICE viewer found"@),
        ),
        ViewerLaunch::LaunchFailed(m) => (
            SpiceConnectionState::Error,
            Some("Failed to launch viewer: "@ + m@),
            Some(m@),
        ),
    }
}

/// The views of an optional string.
pub open spec fn opt_view(o: Option<String>) -> Option<Seq<char>> {
    match o {
        Some(s) => Some(s@),
        None => None,
    }
}

/// What a launch attempt leads to: a launched viewer means connected; a
/// missing or failing viewer means an error state, reported to the user and
/// returned to the caller.
pub fn connect_outcome(l: &ViewerLaunch) -> (o: ConnectOutcome)
    ensures
        (o.state, opt_view(o.reported), opt_view(o.error)) == connect_outcome_spec(*l),
{
    match l {
        ViewerLaunch::Launched => ConnectOutcome {
            state: SpiceConnectionState::Connected,
            reported: None,
            error: None,
        },
        ViewerLaunch::NoViewerFound => ConnectOutcome {
            state: SpiceConnectionState::Error,
            reported: Some(
                String::from_str("No SPICE viewer found (install remote-viewer or virt-viewer)"),
            ),
            error: Some(String::from_str("No SPICE viewer found")),
        },
        ViewerLaunch::LaunchFailed(m) => {
            let mut r = String::from_str("Failed to launch viewer: ");
            r.append(m.as_str());
            ConnectOutcome {
                state: SpiceConnectionState::Error,
                reported: Some(r),
                error: Some(m.clone()),
            }
        },
    }
}

/// The error of a reconnect with no earlier configuration.
pub fn reconnect_without_config() -> (m: String)
    ensures
        m@ == "No previous configuration to reconnect"@,
{
    String::from_str("No previous configuration to reconnect")
}

/// Bytes per BGRA pixel.
pub const BYTES_PER_PIXEL: u32 = 4;

/// The buffer's byte length for the dimensions.
pub open spec fn buffer_len(width: u32, height: u32) -> int {
    4 * width * height
}

/// The dimensions fit: the stride and the byte length are `u32` values.
pub open spec fn dims_fit(width: u32, height: u32) -> bool {
    4 * width <= u32::MAX && 4 * width * height <= u32::MAX
}

/// A zero-filled byte sequence.
pub open spec fn zeros(n: int) -> Seq<u8> {
    Seq::new(n as nat, |i: int| 0u8)
}

/// `data` after copying `cw` bytes of `src` from `so` to position `dst`.
pub open spec fn copy_into(data: Seq<u8>, dst: int, src: Seq<u8>, so: int, cw: int) -> Seq<u8> {
    Seq::new(data.len(), |i: int| if dst <= i < dst + cw { src[so + i - dst] } else { data[i] })
}

/// The bytes of a row of the region that are copied.
pub open spec fn copy_width(stride: int, x: u32, w: u32) -> int {
    if 4 * w <= stride - 4 * x {
        4 * w
    } else {
        stride - 4 * x
    }
}

/// `data` after the first `rows` rows of an `update_region` call: each row
/// is copied when both its source and destination ranges lie inside their
/// buffers.
pub open spec fn region_rows(
    data: Seq<u8>,
    stride: int,
    x: u32,
    y: u32,
    w: u32,
    src: Seq<u8>,
    src_stride: u32,
    rows: nat,
) -> Seq<u8>
    decreases rows,
{
    if rows == 0 {
        data
    } else {
        let r = (rows - 1) as nat;
        let before = region_rows(data, stride, x, y, w, src, src_stride, r);
        let dst = (y + r) * stride + 4 * x;
        let so = r * src_stride;
        let cw = copy_width(stride, x, w);
        if so + cw <= src.len() && dst + cw <= before.len() {
            copy_into(before, dst, src, so, cw)
        } else {
            before
        }
    }
}

/// The rows an `update_region` call visits: those of the region that lie
/// inside the buffer.
pub open spec fn rows_visited(y: u32, h: u32, height: u32) -> nat {
    if y >= height {
        0
    } else if h <= height - y {
        h as nat
    } else {
        (height - y) as nat
    }
}

/// Pixel buffer for SPICE frames, BGRA, four bytes per pixel.
#[derive(Debug)]
pub struct SpicePixelBuffer {
    data: Vec<u8>,
    width: u32,
    height: u32,
    stride: u32,
}

impl SpicePixelBuffer {
    /// The buffer's bytes.
    pub closed spec fn bytes(&self) -> Seq<u8> {
        self.data@
    }

    /// The buffer's width in pixels.
    pub closed spec fn width_spec(&self) -> u32 {
        self.width
    }

    /// The buffer's height in pixels.
    pub closed spec fn height_spec(&self) -> u32 {
        self.height
    }

    /// The stride is four bytes per pixel of width and the byte length
    /// is what the dimensions give.
    pub closed spec fn wf(&self) -> bool {
        &&& dims_fit(self.width, self.height)
        &&& self.stride == 4 * self.width
        &&& self.data@.len() == buffer_len(self.width, self.height)
    }

    /// A zero-filled buffer of the given dimensions.
    pub fn new(width: u32, height: u32) -> (b: Self)
        requires
            dims_fit(width, height),
        ensures
            b.wf(),
            b.width_spec() == width,
            b.height_spec() == height,
            b.bytes() == zeros(buffer_len(width, height)),
    {
        let stride = width * 4;
        assert(stride * height == 4 * width * height) by (nonlinear_arith)
            requires
                stride == width * 4,
        ;
        let size = (stride * height) as usize;
        let data = vec![0u8; size];
        assert(data@ =~= zeros(buffer_len(width, height)));
        SpicePixelBuffer { data, width, height, stride }
    }

    /// The buffer width.
    pub fn width(&self) -> (w: u32)
        ensures
            w == self.width_spec(),
    {
        self.width
    }

    /// The buffer height.
    pub fn height(&self) -> (h: u32)
        ensures
            h == self.height_spec(),
    {
        self.height
    }

    /// The raw BGRA bytes.
    pub fn data(&self) -> (d: &[u8])
        ensures
            d@ == self.bytes(),
    {
        self.data.as_slice()
    }

    /// Changes the dimensions: bytes that remain keep their value, new ones
    /// are zero.
    pub fn resize(&mut self, width: u32, height: u32)
        requires
            dims_fit(width, height),
        ensures
            final(self).wf(),
            final(self).width_spec() == width,
            final(self).height_spec() == height,
            final(self).bytes().len() == buffer_len(width, height),
            buffer_len(width, height) <= old(self).bytes().len() ==> final(self).bytes()
                == old(self).bytes().subrange(0, buffer_len(width, height)),
            buffer_len(width, height) > old(self).bytes().len() ==> final(self).bytes()
                == old(self).bytes() + zeros(buffer_len(width, height) - old(self).bytes().len()),
    {
        self.width = width;
        self.height = height;
        self.stride = width * 4;
        let stride = self.stride;
        assert(stride * height == 4 * width * height) by (nonlinear_arith)
            requires
                stride == width * 4,
        ;
        let size = (self.stride * height) as usize;
        let ghost before = self.data@;
        self.data.resize(size, 0);
        proof {
            if size > before.len() {
                assert(self.data@ =~= before + zeros(size - before.len()));
            }
        }
    }

    /// Sets every byte to zero.
    pub fn clear(&mut self)
        requires
            old(self).wf(),
        ensures
            final(self).wf(),
            final(self).width_spec() == old(self).width_spec(),
            final(self).height_spec() == old(self).height_spec(),
            final(self).bytes() == zeros(old(self).bytes().len() as int),
    {
        let n = self.data.len();
        let mut i: usize = 0;
        while i < n
            invariant
                n == self.data@.len(),
                i <= n,
                forall|k: int| 0 <= k < i ==> self.data@[k] == 0u8,
                self.wf(),
                self.width == old(self).width,
                self.height == old(self).height,
            decreases n - i,
        {
            self.data.set(i, 0u8);
            i = i + 1;
        }
        assert(self.data@ =~= zeros(n as int));
    }

    /// Copies a `w` x `h` block of pixels from `src_data` (rows
    /// `src_stride` bytes apart) to pixel `(x, y)`.
    ///
    /// Rows below the buffer end the copy; each row is cut at the right edge
    /// and copied only when its source and destination bytes exist.
    pub fn update_region(
        &mut self,
        x: u32,
        y: u32,
        w: u32,
        h: u32,
        src_data: &[u8],
        src_stride: u32,
    )
        requires
            old(self).wf(),
            rows_visited(y, h, old(self).height_spec()) > 0 ==> x <= old(self).width_spec(),
        ensures
            final(self).wf(),
            final(self).width_spec() == old(self).width_spec(),
            final(self).height_spec() == old(self).height_spec(),
            final(self).bytes() == region_rows(
                old(self).bytes(),
                4 * old(self).width_spec(),
                x,
                y,
                w,
                src_data@,
                src_stride,
                rows_visited(y, h, old(self).height_spec()),
            ),
    {
        let ghost start = self.data@;
        let ghost stride_i: int = 4 * self.width;
        let dst_stride: u64 = self.stride as u64;
        let height = self.height;
        let mut row: u32 = 0;
        while row < h
            invariant
                self.wf(),
                self.width == old(self).width,
                self.height == height,
                height == old(self).height,
                dst_stride == 4 * self.width,
                stride_i == 4 * self.width,
                start == old(self).data@,
                row <= h,
                row <= rows_visited(y, h, height),
                rows_visited(y, h, height) > 0 ==> x <= self.width,
                self.data@ == region_rows(start, stride_i, x, y, w, src_data@, src_stride, row as nat),
            ensures
                self.wf(),
                self.width == old(self).width,
                self.height == height,
                self.data@ == region_rows(
                    start,
                    stride_i,
                    x,
                    y,
                    w,
                    src_data@,
                    src_stride,
                    rows_visited(y, h, height),
                ),
            decreases h - row,
        {
            if y as u64 + row as u64 >= height as u64 {
                break;
            }
            let dst_y: u64 = y as u64 + row as u64;
            assert(x <= self.width);
            assert(dst_y * dst_stride <= (height - 1) * dst_stride) by (nonlinear_arith)
                requires
                    dst_y <= height - 1,
            ;
            assert((height - 1) * dst_stride + dst_stride <= u32::MAX) by (nonlinear_arith)
                requires
                    dst_stride * height <= u32::MAX,
                    height >= 1,
            ;
            let dst_offset: u64 = dst_y * dst_stride + (x as u64 * 4);
            assert(row * src_stride <= u32::MAX * u32::MAX) by (nonlinear_arith)
                requires
                    row <= u32::MAX,
                    src_stride <= u32::MAX,
            ;
            let src_offset: u64 = row as u64 * src_stride as u64;
            let room: u64 = dst_stride - (x as u64 * 4);
            let copy_width: u64 = if w as u64 * 4 <= room {
                w as u64 * 4
            } else {
                room
            };
            let ghost before = self.data@;
            if src_offset + copy_width <= src_data.len() as u64 && dst_offset + copy_width
                <= self.data.len() as u64 {
                let mut j: u64 = 0;
                while j < copy_width
                    invariant
                        self.wf(),
                        self.width == old(self).width,
                        self.height == height,
                        j <= copy_width,
                        src_offset + copy_width <= u64::MAX,
                        dst_offset + copy_width <= u64::MAX,
                        src_offset + copy_width <= src_data@.len(),
                        dst_offset + copy_width <= self.data@.len(),
                        self.data@.len() == before.len(),
                        forall|k: int|
                            0 <= k < self.data@.len() ==> #[trigger] self.data@[k] == (if dst_offset
                                <= k < dst_offset + j {
                                src_data@[src_offset + k - dst_offset]
                            } else {
                                before[k]
                            }),
                    decreases copy_width - j,
                {
                    let b = src_data[(src_offset + j) as usize];
                    self.data.set((dst_offset + j) as usize, b);
                    j = j + 1;
                }
                assert(self.data@ =~= copy_into(
                    before,
                    dst_offset as int,
                    src_data@,
                    src_offset as int,
                    copy_width as int,
                ));
            }
            proof {
                assert(stride_i - 4 * x == room);
                assert(dst_offset == (y + row) * stride_i + 4 * x);
            }
            row = row + 1;
        }
    }
}

} // verus!
