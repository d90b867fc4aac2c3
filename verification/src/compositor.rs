use vstd::prelude::*;

use crate::canvas::{decodes, draw_pictograph, paint_glyphs, Canvas, CanvasOp, COORD_LIMIT};
use crate::fetch::fetch_bytes;
use crate::metrics::{measure_line, FontMetrics};
use crate::style::{Color, ScalePx};
use crate::token::{tokenize, tokens_of, RenderToken};

verus! {

/// The text style of one render call: the integer font metrics that layout
/// reads, the rasterizer's own font and scale capabilities that glyph
/// painting hands through untouched, and the glyph color.  `glyph_scale`
/// is the rasterizer's form of `scale`; the compositor's layout contracts
/// speak of `metrics` and `scale`, and the canvas journal records which
/// color and rasterizer scale each glyph run was painted with.
pub struct TextStyle<'a> {
    pub metrics: &'a FontMetrics,
    pub font: &'a rusttype::Font<'a>,
    pub glyph_scale: rusttype::Scale,
    pub color: Color,
    pub scale: ScalePx,
}

/// Whether `ok` is a possible resolution outcome for one token: a text run
/// always resolves, a standard pictograph resolves exactly when its bytes
/// decode, and a custom pictograph also depends on its fetch, which may go
/// either way.
pub open spec fn token_outcome(t: RenderToken, ok: bool) -> bool {
    match t {
        RenderToken::Text(_) => ok,
        RenderToken::StandardPictograph(bytes) => ok == decodes(bytes@),
        RenderToken::CustomPictograph(_) => true,
    }
}

/// Whether `oks` records a possible resolution outcome for every token.
pub open spec fn outcomes(tokens: Seq<RenderToken>, oks: Seq<bool>) -> bool {
    &&& oks.len() == tokens.len()
    &&& forall|i: int|
        0 <= i < tokens.len() ==> token_outcome(tokens[i], #[trigger] oks[i])
}

/// The horizontal advance of one token: a text run advances its measured
/// width; a pictograph advances the square edge when it resolved, and
/// nothing when it was skipped.
pub open spec fn token_advance(
    m: FontMetrics,
    sx: u32,
    edge: u32,
    t: RenderToken,
    ok: bool,
) -> nat {
    match t {
        RenderToken::Text(s) => m.line_width(s@, sx),
        RenderToken::StandardPictograph(_) => if ok {
            edge as nat
        } else {
            0
        },
        RenderToken::CustomPictograph(_) => if ok {
            edge as nat
        } else {
            0
        },
    }
}

/// The advance of one token when everything resolves: an upper bound on
/// `token_advance` over every outcome.
pub open spec fn token_reach(m: FontMetrics, sx: u32, edge: u32, t: RenderToken) -> nat {
    match t {
        RenderToken::Text(s) => m.line_width(s@, sx),
        RenderToken::StandardPictograph(_) => edge as nat,
        RenderToken::CustomPictograph(_) => edge as nat,
    }
}

/// The total advance of a token sequence under the given outcomes.
pub open spec fn advance_sum(
    m: FontMetrics,
    sx: u32,
    edge: u32,
    tokens: Seq<RenderToken>,
    oks: Seq<bool>,
) -> nat
    decreases tokens.len(),
{
    if tokens.len() == 0 {
        0
    } else {
        token_advance(m, sx, edge, tokens[0], oks[0]) + advance_sum(
            m,
            sx,
            edge,
            tokens.drop_first(),
            oks.drop_first(),
        )
    }
}

/// The total advance of a token sequence when everything resolves.
pub open spec fn reach_sum(m: FontMetrics, sx: u32, edge: u32, tokens: Seq<RenderToken>) -> nat
    decreases tokens.len(),
{
    if tokens.len() == 0 {
        0
    } else {
        token_reach(m, sx, edge, tokens[0]) + reach_sum(m, sx, edge, tokens.drop_first())
    }
}

/// The composite operations of one token at cursor `(x, y)`: a text run
/// paints one glyph run in the call's color at the rasterizer's scale; a
/// pictograph overlays one `edge`-square image when it resolved, and
/// nothing when it was skipped.
pub open spec fn token_ops(
    t: RenderToken,
    ok: bool,
    edge: u32,
    color: Color,
    gscale: rusttype::Scale,
    x: int,
    y: int,
) -> Seq<CanvasOp> {
    match t {
        RenderToken::Text(s) => seq![
            CanvasOp::Glyphs { x, y, text: s@, color: color, scale: gscale },
        ],
        RenderToken::StandardPictograph(_) => if ok {
            seq![CanvasOp::Pictograph { x, y, edge: edge as nat }]
        } else {
            Seq::empty()
        },
        RenderToken::CustomPictograph(_) => if ok {
            seq![CanvasOp::Pictograph { x, y, edge: edge as nat }]
        } else {
            Seq::empty()
        },
    }
}

/// The composite operations of a token sequence rendered from cursor
/// `(x, y)`: each token's operations in sequence order, each at the cursor
/// position its predecessors advanced to.
pub open spec fn render_ops(
    m: FontMetrics,
    sx: u32,
    edge: u32,
    color: Color,
    gscale: rusttype::Scale,
    tokens: Seq<RenderToken>,
    oks: Seq<bool>,
    x: int,
    y: int,
) -> Seq<CanvasOp>
    decreases tokens.len(),
{
    if tokens.len() == 0 {
        Seq::empty()
    } else {
        token_ops(tokens[0], oks[0], edge, color, gscale, x, y) + render_ops(
            m,
            sx,
            edge,
            color,
            gscale,
            tokens.drop_first(),
            oks.drop_first(),
            x + token_advance(m, sx, edge, tokens[0], oks[0]),
            y,
        )
    }
}

/// Whether the whole laid-out run fits the rasterizer's coordinate range:
/// the origin and every cursor position the tokens can reach stay a glyph
/// run's margin inside `i32`, and the total reach is itself representable.
pub open spec fn coords_in_range(
    m: FontMetrics,
    sx: u32,
    edge: u32,
    tokens: Seq<RenderToken>,
    x: int,
    y: int,
) -> bool {
    &&& -(COORD_LIMIT as int) <= x
    &&& -(COORD_LIMIT as int) <= y <= COORD_LIMIT as int
    &&& reach_sum(m, sx, edge, tokens) <= i32::MAX as int
    &&& x + reach_sum(m, sx, edge, tokens) <= COORD_LIMIT as int
}

/// The advance of a concatenation is the sum of the parts' advances.
pub proof fn lemma_advance_sum_concat(
    m: FontMetrics,
    sx: u32,
    edge: u32,
    t1: Seq<RenderToken>,
    t2: Seq<RenderToken>,
    o1: Seq<bool>,
    o2: Seq<bool>,
)
    requires
        t1.len() == o1.len(),
    ensures
        advance_sum(m, sx, edge, t1 + t2, o1 + o2) == advance_sum(m, sx, edge, t1, o1)
            + advance_sum(m, sx, edge, t2, o2),
    decreases t1.len(),
{
    if t1.len() == 0 {
        assert(t1 + t2 =~= t2);
        assert(o1 + o2 =~= o2);
    } else {
        assert((t1 + t2).drop_first() =~= t1.drop_first() + t2);
        assert((o1 + o2).drop_first() =~= o1.drop_first() + o2);
        assert((t1 + t2)[0] == t1[0]);
        assert((o1 + o2)[0] == o1[0]);
        lemma_advance_sum_concat(m, sx, edge, t1.drop_first(), t2, o1.drop_first(), o2);
    }
}

/// The reach of a concatenation is the sum of the parts' reaches.
pub proof fn lemma_reach_sum_concat(
    m: FontMetrics,
    sx: u32,
    edge: u32,
    t1: Seq<RenderToken>,
    t2: Seq<RenderToken>,
)
    ensures
        reach_sum(m, sx, edge, t1 + t2) == reach_sum(m, sx, edge, t1) + reach_sum(m, sx, edge, t2),
    decreases t1.len(),
{
    if t1.len() == 0 {
        assert(t1 + t2 =~= t2);
    } else {
        assert((t1 + t2).drop_first() =~= t1.drop_first() + t2);
        assert((t1 + t2)[0] == t1[0]);
        lemma_reach_sum_concat(m, sx, edge, t1.drop_first(), t2);
    }
}

/// Ordering: the operations of a rendered sequence are the first part's
/// operations, fully applied in program order, followed by the second
/// part's, which begin at the cursor position the first part advanced to.
/// In particular, for any two tokens rendered as `[a, b]`, every canvas
/// mutation of `a` precedes every mutation of `b`.
pub proof fn lemma_render_ops_concat(
    m: FontMetrics,
    sx: u32,
    edge: u32,
    color: Color,
    gscale: rusttype::Scale,
    t1: Seq<RenderToken>,
    t2: Seq<RenderToken>,
    o1: Seq<bool>,
    o2: Seq<bool>,
    x: int,
    y: int,
)
    requires
        t1.len() == o1.len(),
    ensures
        render_ops(m, sx, edge, color, gscale, t1 + t2, o1 + o2, x, y) == render_ops(
            m,
            sx,
            edge,
            color,
            gscale,
            t1,
            o1,
            x,
            y,
        ) + render_ops(
            m,
            sx,
            edge,
            color,
            gscale,
            t2,
            o2,
            x + advance_sum(m, sx, edge, t1, o1),
            y,
        ),
    decreases t1.len(),
{
    if t1.len() == 0 {
        assert(t1 + t2 =~= t2);
        assert(o1 + o2 =~= o2);
    } else {
        assert((t1 + t2).drop_first() =~= t1.drop_first() + t2);
        assert((o1 + o2).drop_first() =~= o1.drop_first() + o2);
        assert((t1 + t2)[0] == t1[0]);
        assert((o1 + o2)[0] == o1[0]);
        lemma_render_ops_concat(
            m,
            sx,
            edge,
            color,
            gscale,
            t1.drop_first(),
            t2,
            o1.drop_first(),
            o2,
            x + token_advance(m, sx, edge, t1[0], o1[0]),
            y,
        );
    }
}

/// Cursor monotonicity: the cursor position the compositor has reached
/// after any prefix of the tokens is non-decreasing token by token; each
/// token moves it by exactly its own advance and never backward.
pub proof fn lemma_cursor_monotonic(
    m: FontMetrics,
    sx: u32,
    edge: u32,
    tokens: Seq<RenderToken>,
    oks: Seq<bool>,
    i: int,
    j: int,
)
    requires
        tokens.len() == oks.len(),
        0 <= i <= j <= tokens.len(),
    ensures
        advance_sum(m, sx, edge, tokens.take(i), oks.take(i)) <= advance_sum(
            m,
            sx,
            edge,
            tokens.take(j),
            oks.take(j),
        ),
{
    assert(tokens.take(j) =~= tokens.take(i) + tokens.subrange(i, j));
    assert(oks.take(j) =~= oks.take(i) + oks.subrange(i, j));
    lemma_advance_sum_concat(
        m,
        sx,
        edge,
        tokens.take(i),
        tokens.subrange(i, j),
        oks.take(i),
        oks.subrange(i, j),
    );
}

/// Skip-on-failure idempotence: a pictograph token that failed to resolve
/// contributes no canvas operation and no advance, so the render is the
/// same as if that token were absent from the sequence.
pub proof fn lemma_skip_is_absent(
    m: FontMetrics,
    sx: u32,
    edge: u32,
    color: Color,
    gscale: rusttype::Scale,
    tokens: Seq<RenderToken>,
    oks: Seq<bool>,
    i: int,
    x: int,
    y: int,
)
    requires
        outcomes(tokens, oks),
        0 <= i < tokens.len(),
        !oks[i],
    ensures
        outcomes(tokens.remove(i), oks.remove(i)),
        advance_sum(m, sx, edge, tokens.remove(i), oks.remove(i)) == advance_sum(
            m,
            sx,
            edge,
            tokens,
            oks,
        ),
        render_ops(m, sx, edge, color, gscale, tokens.remove(i), oks.remove(i), x, y)
            == render_ops(m, sx, edge, color, gscale, tokens, oks, x, y),
{
    let ti = tokens[i];
    let pre = tokens.take(i);
    let post = tokens.skip(i + 1);
    let opre = oks.take(i);
    let opost = oks.skip(i + 1);
    assert(token_outcome(ti, false));
    assert(token_advance(m, sx, edge, ti, false) == 0);
    assert(token_ops(ti, false, edge, color, gscale, x + advance_sum(m, sx, edge, pre, opre), y)
        =~= Seq::<CanvasOp>::empty());

    assert(tokens =~= pre + (seq![ti] + post));
    assert(oks =~= opre + (seq![false] + opost));
    assert(tokens.remove(i) =~= pre + post);
    assert(oks.remove(i) =~= opre + opost);

    assert(seq![ti].drop_first() =~= Seq::<RenderToken>::empty());
    assert(seq![false].drop_first() =~= Seq::<bool>::empty());
    assert(seq![ti][0] == ti);
    assert(seq![false][0] == false);
    assert(advance_sum(m, sx, edge, Seq::<RenderToken>::empty(), Seq::<bool>::empty()) == 0);
    assert(advance_sum(m, sx, edge, seq![ti], seq![false]) == 0);

    lemma_advance_sum_concat(m, sx, edge, seq![ti], post, seq![false], opost);
    lemma_advance_sum_concat(m, sx, edge, pre, seq![ti] + post, opre, seq![false] + opost);
    lemma_advance_sum_concat(m, sx, edge, pre, post, opre, opost);

    let c1 = x + advance_sum(m, sx, edge, pre, opre);
    lemma_render_ops_concat(
        m,
        sx,
        edge,
        color,
        gscale,
        pre,
        seq![ti] + post,
        opre,
        seq![false] + opost,
        x,
        y,
    );
    lemma_render_ops_concat(m, sx, edge, color, gscale, seq![ti], post, seq![false], opost, c1, y);
    assert(render_ops(
        m,
        sx,
        edge,
        color,
        gscale,
        Seq::<RenderToken>::empty(),
        Seq::<bool>::empty(),
        c1,
        y,
    ) =~= Seq::<CanvasOp>::empty());
    assert(render_ops(m, sx, edge, color, gscale, seq![ti], seq![false], c1, y) =~= token_ops(
        ti,
        false,
        edge,
        color,
        gscale,
        c1,
        y,
    ) + render_ops(
        m,
        sx,
        edge,
        color,
        gscale,
        Seq::<RenderToken>::empty(),
        Seq::<bool>::empty(),
        c1,
        y,
    ));
    assert(render_ops(m, sx, edge, color, gscale, seq![ti], seq![false], c1, y)
        =~= Seq::<CanvasOp>::empty());
    lemma_render_ops_concat(m, sx, edge, color, gscale, pre, post, opre, opost, x, y);

    assert forall|j: int| 0 <= j < tokens.remove(i).len() implies token_outcome(
        tokens.remove(i)[j],
        #[trigger] oks.remove(i)[j],
    ) by {
        if j < i {
            assert(tokens.remove(i)[j] == tokens[j]);
            assert(oks.remove(i)[j] == oks[j]);
        } else {
            assert(tokens.remove(i)[j] == tokens[j + 1]);
            assert(oks.remove(i)[j] == oks[j + 1]);
        }
    }
}

/// How far a token sequence can reach: the total cursor advance it would
/// take if every pictograph resolved.  Returns the exact total when it is
/// representable, and `None` when it is not.
pub fn max_advance(metrics: &FontMetrics, scale: ScalePx, tokens: &Vec<RenderToken>) -> (r:
    Option<u64>)
    requires
        metrics.wf(),
    ensures
        match r {
            Some(total) => total as nat == reach_sum(*metrics, scale.x, scale.y, tokens@)
                && total <= i32::MAX,
            None => reach_sum(*metrics, scale.x, scale.y, tokens@) > i32::MAX,
        },
{
    let ghost m = *metrics;
    let ghost sx = scale.x;
    let ghost edge = scale.y;
    let n = tokens.len();
    let mut total: u64 = 0;
    let mut i: usize = 0;
    while i < n
        invariant
            metrics.wf(),
            m == *metrics,
            sx == scale.x,
            edge == scale.y,
            n == tokens@.len(),
            i <= n,
            total as nat == reach_sum(m, sx, edge, tokens@.take(i as int)),
            total <= i32::MAX,
        decreases n - i,
    {
        let t = &tokens[i];
        let inc: u128 = match t {
            RenderToken::Text(s) => metrics.measure_width(s.as_str(), scale.x),
            RenderToken::StandardPictograph(_) => scale.y as u128,
            RenderToken::CustomPictograph(_) => scale.y as u128,
        };
        proof {
            let ti = tokens@[i as int];
            assert(seq![ti].drop_first() =~= Seq::<RenderToken>::empty());
            assert(seq![ti][0] == ti);
            assert(reach_sum(m, sx, edge, Seq::<RenderToken>::empty()) == 0);
            assert(reach_sum(m, sx, edge, seq![ti]) == token_reach(m, sx, edge, ti));
            assert(tokens@.take(i as int + 1) =~= tokens@.take(i as int) + seq![ti]);
            lemma_reach_sum_concat(m, sx, edge, tokens@.take(i as int), seq![ti]);
            assert(inc as nat == token_reach(m, sx, edge, ti));
        }
        if inc > i32::MAX as u128 - total as u128 {
            proof {
                assert(tokens@ =~= tokens@.take(i as int + 1) + tokens@.skip(i as int + 1));
                lemma_reach_sum_concat(
                    m,
                    sx,
                    edge,
                    tokens@.take(i as int + 1),
                    tokens@.skip(i as int + 1),
                );
            }
            return None;
        }
        total = total + inc as u64;
        i = i + 1;
    }
    proof {
        assert(tokens@.take(n as int) =~= tokens@);
    }
    Some(total)
}

/// Render one text or standard-pictograph token at cursor `(x, y)` and
/// return its horizontal advance together with its resolution outcome.
/// A custom pictograph needs its bytes fetched first; see
/// `draw_fetched_pictograph`.
pub fn draw_local_token(
    canvas: &mut Canvas,
    token: &RenderToken,
    x: i64,
    y: i64,
    style: &TextStyle,
) -> (r: (u64, Ghost<bool>))
    requires
        style.metrics.wf(),
        !(token matches RenderToken::CustomPictograph(_)),
        -(COORD_LIMIT as int) <= x as int,
        x as int + token_reach(*style.metrics, style.scale.x, style.scale.y, *token)
            <= COORD_LIMIT as int,
        -(COORD_LIMIT as int) <= y as int <= COORD_LIMIT as int,
    ensures
        token_outcome(*token, r.1@),
        r.0 as nat == token_advance(*style.metrics, style.scale.x, style.scale.y, *token, r.1@),
        final(canvas).ops() == old(canvas).ops() + token_ops(
            *token,
            r.1@,
            style.scale.y,
            style.color,
            style.glyph_scale,
            x as int,
            y as int,
        ),
{
    match token {
        RenderToken::Text(s) => {
            let (w, _h) = measure_line(style.metrics, s.as_str(), style.scale);
            paint_glyphs(
                canvas,
                style.color,
                x as i32,
                y as i32,
                style.glyph_scale,
                style.font,
                s.as_str(),
            );
            proof {
                assert(final(canvas).ops() =~= old(canvas).ops() + token_ops(
                    *token,
                    true,
                    style.scale.y,
                    style.color,
                    style.glyph_scale,
                    x as int,
                    y as int,
                ));
            }
            (w, Ghost(true))
        },
        RenderToken::StandardPictograph(bytes) => {
            let adv = draw_pictograph(canvas, bytes, x, y, style.scale.y);
            let ghost ok = decodes(bytes@);
            proof {
                assert(final(canvas).ops() =~= old(canvas).ops() + token_ops(
                    *token,
                    ok,
                    style.scale.y,
                    style.color,
                    style.glyph_scale,
                    x as int,
                    y as int,
                ));
            }
            (adv as u64, Ghost(ok))
        },
        RenderToken::CustomPictograph(_) => (0, Ghost(false)),
    }
}

/// Composite a custom pictograph from the bytes its fetch produced, if it
/// produced any: `fetched` is the fetch capability's outcome, `None` when
/// the fetch failed.  On fetch failure or decode failure the canvas is
/// untouched and the advance is zero; nothing is retried and no error
/// surfaces.
pub fn draw_fetched_pictograph(
    canvas: &mut Canvas,
    fetched: Option<Vec<u8>>,
    x: i64,
    y: i64,
    edge: u32,
) -> (r: (u64, Ghost<bool>))
    ensures
        r.0 as nat == if r.1@ {
            edge as nat
        } else {
            0
        },
        final(canvas).ops() == old(canvas).ops() + if r.1@ {
            seq![CanvasOp::Pictograph { x: x as int, y: y as int, edge: edge as nat }]
        } else {
            Seq::<CanvasOp>::empty()
        },
        r.1@ ==> (fetched matches Some(bytes) && decodes(bytes@)),
        (fetched matches Some(bytes) && decodes(bytes@)) ==> r.1@,
{
    match fetched {
        Some(bytes) => {
            let adv = draw_pictograph(canvas, &bytes, x, y, edge);
            let ghost ok = decodes(bytes@);
            proof {
                if ok {
                    assert(final(canvas).ops() =~= old(canvas).ops() + seq![
                        CanvasOp::Pictograph { x: x as int, y: y as int, edge: edge as nat },
                    ]);
                } else {
                    assert(final(canvas).ops() =~= old(canvas).ops()
                        + Seq::<CanvasOp>::empty());
                }
            }
            (adv as u64, Ghost(ok))
        },
        None => {
            proof {
                assert(final(canvas).ops() =~= old(canvas).ops() + Seq::<CanvasOp>::empty());
            }
            (0, Ghost(false))
        },
    }
}

/// Render a token sequence onto the canvas with a cursor starting at
/// `(x, y)`: a text run paints glyphs and advances by its measured width;
/// a standard pictograph decodes its bytes; a custom pictograph fetches
/// its bytes over HTTP first; a resolved pictograph is resized to a
/// `scale.y` square and composited, advancing by `scale.y`.  Every failure
/// is skipped silently: zero advance, no canvas operation, and rendering
/// continues with the next token.  Returns the final cursor position and
/// the per-token outcomes.
pub fn draw_tokens_mut(
    canvas: &mut Canvas,
    tokens: Vec<RenderToken>,
    x: i64,
    y: i64,
    style: &TextStyle,
) -> (r: (i64, Ghost<Seq<bool>>))
    requires
        style.metrics.wf(),
        -(COORD_LIMIT as int) <= x as int,
        x as int + reach_sum(*style.metrics, style.scale.x, style.scale.y, tokens@)
            <= COORD_LIMIT as int,
        -(COORD_LIMIT as int) <= y as int <= COORD_LIMIT as int,
    ensures
        outcomes(tokens@, r.1@),
        r.0 == x + advance_sum(*style.metrics, style.scale.x, style.scale.y, tokens@, r.1@),
        final(canvas).ops() == old(canvas).ops() + render_ops(
            *style.metrics,
            style.scale.x,
            style.scale.y,
            style.color,
            style.glyph_scale,
            tokens@,
            r.1@,
            x as int,
            y as int,
        ),
        x <= r.0,
{
    let ghost m = *style.metrics;
    let ghost sx = style.scale.x;
    let ghost edge = style.scale.y;
    let ghost col = style.color;
    let ghost gsc = style.glyph_scale;
    let ghost ops0 = canvas.ops();
    let n = tokens.len();
    let mut cx: i64 = x;
    let ghost mut oks: Seq<bool> = Seq::empty();
    proof {
        assert(tokens@.take(0) =~= Seq::<RenderToken>::empty());
        assert(tokens@.skip(0) =~= tokens@);
        assert(render_ops(m, sx, edge, col, gsc, tokens@.take(0), oks, x as int, y as int)
            =~= Seq::<CanvasOp>::empty());
        assert(canvas.ops() =~= ops0 + Seq::<CanvasOp>::empty());
    }
    let mut i: usize = 0;
    while i < n
        invariant
            style.metrics.wf(),
            m == *style.metrics,
            sx == style.scale.x,
            edge == style.scale.y,
            col == style.color,
            gsc == style.glyph_scale,
            n == tokens@.len(),
            i <= n,
            oks.len() == i,
            outcomes(tokens@.take(i as int), oks),
            cx == x + advance_sum(m, sx, edge, tokens@.take(i as int), oks),
            canvas.ops() == ops0 + render_ops(
                m,
                sx,
                edge,
                col,
                gsc,
                tokens@.take(i as int),
                oks,
                x as int,
                y as int,
            ),
            x <= cx,
            cx as int + reach_sum(m, sx, edge, tokens@.skip(i as int)) <= COORD_LIMIT as int,
            -(COORD_LIMIT as int) <= x as int,
            -(COORD_LIMIT as int) <= y as int <= COORD_LIMIT as int,
        decreases n - i,
    {
        let t = &tokens[i];
        proof {
            let ti = tokens@[i as int];
            assert(seq![ti].drop_first() =~= Seq::<RenderToken>::empty());
            assert(seq![ti][0] == ti);
            assert(reach_sum(m, sx, edge, Seq::<RenderToken>::empty()) == 0);
            assert(reach_sum(m, sx, edge, seq![ti]) == token_reach(m, sx, edge, ti));
            assert(tokens@.skip(i as int) =~= seq![ti] + tokens@.skip(i as int + 1));
            lemma_reach_sum_concat(m, sx, edge, seq![ti], tokens@.skip(i as int + 1));
        }
        let (adv, ok) = match t {
            RenderToken::CustomPictograph(url) => {
                let fetched = fetch_bytes(url.as_str());
                draw_fetched_pictograph(canvas, fetched, cx, y, style.scale.y)
            },
            _ => draw_local_token(canvas, t, cx, y, style),
        };
        proof {
            let ti = tokens@[i as int];
            assert(token_outcome(ti, ok@));
            assert(adv as nat == token_advance(m, sx, edge, ti, ok@));
            assert(token_advance(m, sx, edge, ti, ok@) <= token_reach(m, sx, edge, ti));
            assert(canvas.ops() =~= ops0 + render_ops(
                m,
                sx,
                edge,
                col,
                gsc,
                tokens@.take(i as int),
                oks,
                x as int,
                y as int,
            ) + token_ops(ti, ok@, edge, col, gsc, cx as int, y as int));

            assert(tokens@.take(i as int + 1) =~= tokens@.take(i as int) + seq![ti]);
            assert(seq![ok@].drop_first() =~= Seq::<bool>::empty());
            assert(seq![ok@][0] == ok@);
            assert(advance_sum(m, sx, edge, Seq::<RenderToken>::empty(), Seq::<bool>::empty())
                == 0);
            lemma_advance_sum_concat(
                m,
                sx,
                edge,
                tokens@.take(i as int),
                seq![ti],
                oks,
                seq![ok@],
            );
            assert(advance_sum(m, sx, edge, seq![ti], seq![ok@]) == token_advance(
                m,
                sx,
                edge,
                ti,
                ok@,
            ));
            lemma_render_ops_concat(
                m,
                sx,
                edge,
                col,
                gsc,
                tokens@.take(i as int),
                seq![ti],
                oks,
                seq![ok@],
                x as int,
                y as int,
            );
            assert(oks.push(ok@) =~= oks + seq![ok@]);
            assert(render_ops(
                m,
                sx,
                edge,
                col,
                gsc,
                Seq::<RenderToken>::empty(),
                Seq::<bool>::empty(),
                cx as int + token_advance(m, sx, edge, ti, ok@),
                y as int,
            ) =~= Seq::<CanvasOp>::empty());
            assert(render_ops(m, sx, edge, col, gsc, seq![ti], seq![ok@], cx as int, y as int)
                =~= token_ops(ti, ok@, edge, col, gsc, cx as int, y as int));
            assert(ops0 + render_ops(
                m,
                sx,
                edge,
                col,
                gsc,
                tokens@.take(i as int),
                oks,
                x as int,
                y as int,
            ) + token_ops(ti, ok@, edge, col, gsc, cx as int, y as int) =~= ops0 + render_ops(
                m,
                sx,
                edge,
                col,
                gsc,
                tokens@.take(i as int + 1),
                oks.push(ok@),
                x as int,
                y as int,
            ));
            assert forall|j: int| 0 <= j < i as int + 1 implies token_outcome(
                tokens@.take(i as int + 1)[j],
                #[trigger] oks.push(ok@)[j],
            ) by {
                if j < i as int {
                    assert(token_outcome(tokens@.take(i as int)[j], oks[j]));
                }
            }
            oks = oks.push(ok@);
        }
        cx = cx + adv as i64;
        i = i + 1;
    }
    proof {
        assert(tokens@.take(n as int) =~= tokens@);
        assert(tokens@.skip(n as int) =~= Seq::<RenderToken>::empty());
    }
    (cx, Ghost(oks))
}

/// Tokenize `text` with the external tokenizer and render its tokens from
/// `(x, y)`, exactly as `draw_tokens_mut` does.  Returns the final cursor
/// position, or `None` -- with the canvas untouched -- exactly when the
/// starting position or the laid-out run cannot be represented in the
/// rasterizer's coordinate range, which the surrounding design treats as a
/// defect in the caller's input rather than an operating condition.
pub fn draw_text_mut(canvas: &mut Canvas, text: String, x: i64, y: i64, style: &TextStyle) -> (r:
    Option<i64>)
    requires
        style.metrics.wf(),
    ensures
        r is Some <==> coords_in_range(
            *style.metrics,
            style.scale.x,
            style.scale.y,
            tokens_of(text@),
            x as int,
            y as int,
        ),
        match r {
            Some(fx) => x <= fx && exists|oks: Seq<bool>|
                outcomes(tokens_of(text@), oks) && fx == x + advance_sum(
                    *style.metrics,
                    style.scale.x,
                    style.scale.y,
                    tokens_of(text@),
                    oks,
                ) && final(canvas).ops() == old(canvas).ops() + render_ops(
                    *style.metrics,
                    style.scale.x,
                    style.scale.y,
                    style.color,
                    style.glyph_scale,
                    tokens_of(text@),
                    oks,
                    x as int,
                    y as int,
                ),
            None => final(canvas).ops() == old(canvas).ops(),
        },
{
    let tokens = tokenize(text);
    if x < -(COORD_LIMIT as i64) || y < -(COORD_LIMIT as i64) || y > COORD_LIMIT as i64 {
        return None;
    }
    let total = match max_advance(style.metrics, style.scale, &tokens) {
        Some(total) => total,
        None => {
            return None;
        },
    };
    if x > COORD_LIMIT as i64 - total as i64 {
        return None;
    }
    let ghost ts = tokens@;
    let (fx, oks) = draw_tokens_mut(canvas, tokens, x, y, style);
    proof {
        assert(outcomes(ts, oks@) && fx == x + advance_sum(
            *style.metrics,
            style.scale.x,
            style.scale.y,
            ts,
            oks@,
        ) && final(canvas).ops() == old(canvas).ops() + render_ops(
            *style.metrics,
            style.scale.x,
            style.scale.y,
            style.color,
            style.glyph_scale,
            ts,
            oks@,
            x as int,
            y as int,
        ));
    }
    Some(fx)
}

} // verus!
