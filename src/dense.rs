//! The fully-connected stage. Values are `i64` and every sum and product is
//! two's-complement wrapping, so a forward pass is total and its result is
//! stated exactly by `propagate`.
use crate::block::Block;
use vstd::prelude::*;

verus! {

/// Failures of a dense stage.
#[derive(Debug, Clone, Copy, PartialEq, Eq, Structural)]
pub enum DenseError {
    /// The layer widths are malformed (fewer than two, or a zero width), or a
    /// parameter set does not fit them.
    Configuration,
    /// An input vector whose length differs from the first layer's width.
    ShapeMismatch,
}

/// Layer widths that describe a stage: at least two layers, none of them empty.
pub open spec fn valid_widths(w: Seq<usize>) -> bool {
    &&& w.len() >= 2
    &&& forall|i: int| 0 <= i < w.len() ==> w[i] > 0
}

/// A matrix of `rows` rows of `cols` entries each.
pub open spec fn has_shape(m: Seq<Seq<i64>>, rows: int, cols: int) -> bool {
    &&& m.len() == rows
    &&& forall|r: int| 0 <= r < rows ==> #[trigger] m[r].len() == cols
}

/// Weights and biases fitting the widths `w`: `weights[i]` is `w[i]` by
/// `w[i+1]`, `biases[0]` is empty and `biases[i+1]` has `w[i+1]` entries.
pub open spec fn params_fit(ws: Seq<Seq<Seq<i64>>>, bs: Seq<Seq<i64>>, w: Seq<usize>) -> bool {
    &&& ws.len() == w.len() - 1
    &&& bs.len() == w.len()
    &&& bs[0].len() == 0
    &&& forall|i: int| 0 <= i < ws.len() ==> has_shape(#[trigger] ws[i], w[i] as int, w[i + 1] as int)
    &&& forall|i: int| 1 <= i < bs.len() ==> #[trigger] bs[i].len() == w[i]
}

/// Rectification as applied to one pre-activation value: in linear mode the
/// value passes unchanged, otherwise negatives become zero.
pub open spec fn activation(linear: bool, x: i64) -> i64 {
    if linear || x > 0 {
        x
    } else {
        0
    }
}

/// Sum, in two's complement arithmetic, of `x[r] * m[r][c]` over the first `n` rows.
pub open spec fn column_dot(x: Seq<i64>, m: Seq<Seq<i64>>, c: int, n: int) -> i64
    decreases n,
{
    if n <= 0 {
        0
    } else {
        column_dot(x, m, c, n - 1).wrapping_add(x[n - 1].wrapping_mul(m[n - 1][c]))
    }
}

/// One transition: the product of `x` with `m`, plus `b`, then activated.
pub open spec fn transition(x: Seq<i64>, m: Seq<Seq<i64>>, b: Seq<i64>, linear: bool) -> Seq<i64> {
    Seq::new(
        b.len(),
        |c: int| activation(linear, column_dot(x, m, c, x.len() as int).wrapping_add(b[c])),
    )
}

/// The activation of layer `n` when `x` is fed to the first layer.
pub open spec fn propagate(
    x: Seq<i64>,
    ws: Seq<Seq<Seq<i64>>>,
    bs: Seq<Seq<i64>>,
    linear: bool,
    n: nat,
) -> Seq<i64>
    decreases n,
{
    if n == 0 {
        x
    } else {
        transition(propagate(x, ws, bs, linear, (n - 1) as nat), ws[n - 1], bs[n as int], linear)
    }
}

/// Weight matrices and bias vectors of a dense stage. Matrix `i` maps layer
/// `i` to layer `i + 1` and is stored by rows: `weights[i][r][c]` links unit
/// `r` of layer `i` to unit `c` of layer `i + 1`.
pub struct DenseParams {
    pub weights: Vec<Vec<Vec<i64>>>,
    pub biases: Vec<Vec<i64>>,
}

/// The entries of a matrix stored by rows.
pub open spec fn matrix_view(m: Seq<Vec<i64>>) -> Seq<Seq<i64>> {
    m.map_values(|r: Vec<i64>| r@)
}

/// The entries of a sequence of matrices.
pub open spec fn matrices_view(ms: Seq<Vec<Vec<i64>>>) -> Seq<Seq<Seq<i64>>> {
    ms.map_values(|m: Vec<Vec<i64>>| matrix_view(m@))
}

/// Every entry of every matrix and vector is zero.
pub open spec fn all_zero(ws: Seq<Seq<Seq<i64>>>, bs: Seq<Seq<i64>>) -> bool {
    &&& forall|i: int, r: int, c: int|
        0 <= i < ws.len() && 0 <= r < ws[i].len() && 0 <= c < ws[i][r].len() ==> #[trigger] ws[i][r][c]
            == 0
    &&& forall|i: int, c: int| 0 <= i < bs.len() && 0 <= c < bs[i].len() ==> #[trigger] bs[i][c] == 0
}

/// A vector of `n` zeros.
pub fn zeros(n: usize) -> (r: Vec<i64>)
    ensures
        r@ == Seq::new(n as nat, |i: int| 0i64),
{
    let mut r: Vec<i64> = Vec::with_capacity(n);
    let mut i: usize = 0;
    while i < n
        invariant
            i <= n,
            r@ == Seq::new(i as nat, |j: int| 0i64),
        decreases n - i,
    {
        r.push(0);
        i = i + 1;
    }
    assert(r@ =~= Seq::new(n as nat, |j: int| 0i64));
    r
}

/// A `rows` by `cols` matrix of zeros.
pub fn zero_matrix(rows: usize, cols: usize) -> (r: Vec<Vec<i64>>)
    ensures
        r@.len() == rows,
        forall|i: int| 0 <= i < rows ==> #[trigger] r@[i]@ == Seq::new(cols as nat, |j: int| 0i64),
{
    let mut r: Vec<Vec<i64>> = Vec::with_capacity(rows);
    let mut i: usize = 0;
    while i < rows
        invariant
            i <= rows,
            r@.len() == i,
            forall|k: int| 0 <= k < i ==> #[trigger] r@[k]@ == Seq::new(cols as nat, |j: int| 0i64),
        decreases rows - i,
    {
        r.push(zeros(cols));
        i = i + 1;
    }
    r
}

/// Whether `m` is a `rows` by `cols` matrix.
pub fn check_shape(m: &Vec<Vec<i64>>, rows: usize, cols: usize) -> (r: bool)
    ensures
        r == has_shape(matrix_view(m@), rows as int, cols as int),
{
    if m.len() != rows {
        return false;
    }
    let mut i: usize = 0;
    while i < rows
        invariant
            m@.len() == rows,
            i <= rows,
            forall|k: int| 0 <= k < i ==> #[trigger] m@[k]@.len() == cols,
        decreases rows - i,
    {
        if m[i].len() != cols {
            assert(matrix_view(m@)[i as int].len() != cols);
            return false;
        }
        i = i + 1;
    }
    assert forall|k: int| 0 <= k < rows implies #[trigger] matrix_view(m@)[k].len() == cols by {
        assert(matrix_view(m@)[k] == m@[k]@);
    }
    true
}

impl DenseParams {
    /// The weight matrices, entry by entry.
    pub open spec fn weights_view(&self) -> Seq<Seq<Seq<i64>>> {
        matrices_view(self.weights@)
    }

    /// The bias vectors, entry by entry.
    pub open spec fn biases_view(&self) -> Seq<Seq<i64>> {
        matrix_view(self.biases@)
    }

    /// Whether these parameters fit the layer widths `w`.
    pub fn fits(&self, w: &Vec<usize>) -> (r: bool)
        requires
            w@.len() >= 1,
        ensures
            r == params_fit(self.weights_view(), self.biases_view(), w@),
    {
        let ghost ws = self.weights_view();
        let ghost bs = self.biases_view();
        let k: usize = w.len() - 1;
        if self.weights.len() != k || self.biases.len() != w.len() || self.biases[0].len() != 0 {
            proof {
                if self.biases@.len() == w@.len() {
                    assert(bs[0] == self.biases@[0]@);
                }
            }
            return false;
        }
        let mut i: usize = 0;
        while i < k
            invariant
                ws == self.weights_view(),
                bs == self.biases_view(),
                k == w@.len() - 1,
                ws.len() == k,
                bs.len() == w@.len(),
                i <= k,
                forall|j: int| 0 <= j < i ==> has_shape(#[trigger] ws[j], w@[j] as int, w@[j + 1] as int),
                forall|j: int| 1 <= j <= i ==> #[trigger] bs[j].len() == w@[j],
            decreases k - i,
        {
            assert(ws[i as int] == matrix_view(self.weights@[i as int]@));
            assert(bs[i + 1] == self.biases@[i + 1]@);
            if !check_shape(&self.weights[i], w[i], w[i + 1]) || self.biases[i + 1].len() != w[i + 1] {
                return false;
            }
            i = i + 1;
        }
        assert(bs[0] == self.biases@[0]@);
        true
    }
}

/// Whether `w` describes a stage: at least two layers, none of them empty.
pub fn check_widths(w: &Vec<usize>) -> (r: bool)
    ensures
        r == valid_widths(w@),
{
    let n: usize = w.len();
    if n < 2 {
        return false;
    }
    let mut i: usize = 0;
    while i < n
        invariant
            n == w@.len(),
            i <= n,
            forall|j: int| 0 <= j < i ==> w@[j] > 0,
        decreases n - i,
    {
        if w[i] == 0 {
            return false;
        }
        i = i + 1;
    }
    true
}

/// Parameter dimensions fitting the widths `w`: `dims[i]` is the shape
/// (rows, columns) of weight matrix `i`, `bias_lens[i]` the length of bias
/// vector `i`.
pub open spec fn dims_fit(w: Seq<usize>, dims: Seq<(usize, usize)>, bias_lens: Seq<usize>) -> bool {
    &&& dims.len() == w.len() - 1
    &&& bias_lens.len() == w.len()
    &&& bias_lens[0] == 0
    &&& forall|i: int| 0 <= i < dims.len() ==> #[trigger] dims[i] == (w[i], w[i + 1])
    &&& forall|i: int| 1 <= i < bias_lens.len() ==> #[trigger] bias_lens[i] == w[i]
}

/// Whether parameters of the given dimensions fit the widths `w`.
pub fn check_dims(w: &Vec<usize>, dims: &Vec<(usize, usize)>, bias_lens: &Vec<usize>) -> (r: bool)
    requires
        w@.len() >= 1,
    ensures
        r == dims_fit(w@, dims@, bias_lens@),
{
    let k: usize = w.len() - 1;
    if dims.len() != k || bias_lens.len() != w.len() || bias_lens[0] != 0 {
        return false;
    }
    let mut i: usize = 0;
    while i < k
        invariant
            k == w@.len() - 1,
            dims@.len() == k,
            bias_lens@.len() == w@.len(),
            i <= k,
            forall|j: int| 0 <= j < i ==> #[trigger] dims@[j] == (w@[j], w@[j + 1]),
            forall|j: int| 1 <= j <= i ==> #[trigger] bias_lens@[j] == w@[j],
        decreases k - i,
    {
        let (rows, cols) = dims[i];
        if rows != w[i] || cols != w[i + 1] || bias_lens[i + 1] != w[i + 1] {
            return false;
        }
        i = i + 1;
    }
    true
}

/// A fully-connected stage: a stack of affine transitions between layers of
/// the given widths, each followed by rectification unless the stage is linear.
pub struct Dense {
    input: Vec<i64>,
    input_size: usize,
    linear: bool,
    widths: Vec<usize>,
    layer: Vec<Vec<i64>>,
    params: DenseParams,
}

impl Dense {
    /// The layer widths.
    pub closed spec fn widths_view(&self) -> Seq<usize> {
        self.widths@
    }

    /// The stored input.
    pub closed spec fn input_view(&self) -> Seq<i64> {
        self.input@
    }

    /// Whether rectification is disabled.
    pub closed spec fn linear_view(&self) -> bool {
        self.linear
    }

    /// The weight matrices.
    pub closed spec fn weights_view(&self) -> Seq<Seq<Seq<i64>>> {
        self.params.weights_view()
    }

    /// The bias vectors.
    pub closed spec fn biases_view(&self) -> Seq<Seq<i64>> {
        self.params.biases_view()
    }

    /// The activation buffer, one vector per layer.
    pub closed spec fn layers_view(&self) -> Seq<Seq<i64>> {
        matrix_view(self.layer@)
    }

    /// The cached width of the first layer.
    pub closed spec fn input_size_view(&self) -> usize {
        self.input_size
    }

    /// Number of transitions.
    pub open spec fn depth(&self) -> nat {
        (self.widths_view().len() - 1) as nat
    }

    /// Width of the last layer.
    pub open spec fn output_width(&self) -> usize {
        self.widths_view()[self.depth() as int]
    }

    /// Everything is sized from the widths: input, parameters and activations.
    pub open spec fn wf(&self) -> bool {
        &&& valid_widths(self.widths_view())
        &&& self.input_size_view() == self.widths_view()[0]
        &&& self.input_view().len() == self.widths_view()[0]
        &&& params_fit(self.weights_view(), self.biases_view(), self.widths_view())
        &&& self.layers_view().len() == self.widths_view().len()
        &&& forall|i: int|
            0 <= i < self.widths_view().len() ==> #[trigger] self.layers_view()[i].len()
                == self.widths_view()[i]
    }

    /// What `compute` returns: the stored input propagated through every transition.
    pub open spec fn output(&self) -> Seq<i64> {
        propagate(self.input_view(), self.weights_view(), self.biases_view(), self.linear_view(), self.depth())
    }

    /// Builds a stage with the given widths, all parameters and activations
    /// zero. Fails with a configuration error on malformed widths.
    pub fn new(layer_widths: Vec<usize>, linear: bool) -> (r: Result<Dense, DenseError>)
        ensures
            match r {
                Ok(d) => {
                    &&& valid_widths(layer_widths@)
                    &&& d.wf()
                    &&& d.widths_view() == layer_widths@
                    &&& d.linear_view() == linear
                    &&& d.input_view() == Seq::new(layer_widths@[0] as nat, |j: int| 0i64)
                    &&& all_zero(d.weights_view(), d.biases_view())
                    &&& forall|i: int|
                        0 <= i < layer_widths@.len() ==> #[trigger] d.layers_view()[i] == Seq::new(
                            layer_widths@[i] as nat,
                            |j: int| 0i64,
                        )
                },
                Err(e) => !valid_widths(layer_widths@) && e == DenseError::Configuration,
            },
    {
        if !check_widths(&layer_widths) {
            return Err(DenseError::Configuration);
        }
        let n: usize = layer_widths.len();
        let mut weights: Vec<Vec<Vec<i64>>> = Vec::new();
        let mut biases: Vec<Vec<i64>> = Vec::new();
        let mut layer: Vec<Vec<i64>> = Vec::new();
        biases.push(Vec::new());
        let mut i: usize = 0;
        while i < n - 1
            invariant
                n == layer_widths@.len(),
                valid_widths(layer_widths@),
                i <= n - 1,
                weights@.len() == i,
                biases@.len() == i + 1,
                layer@.len() == i,
                biases@[0]@.len() == 0,
                forall|j: int| 0 <= j < i ==> has_shape(#[trigger] matrix_view(weights@[j]@), layer_widths@[j] as int, layer_widths@[j + 1] as int),
                forall|j: int, r: int, c: int|
                    0 <= j < i && 0 <= r < weights@[j]@.len() && 0 <= c < weights@[j]@[r]@.len() ==> #[trigger] weights@[j]@[r]@[c] == 0,
                forall|j: int| 1 <= j <= i ==> #[trigger] biases@[j]@ == Seq::new(layer_widths@[j] as nat, |c: int| 0i64),
                forall|j: int| 0 <= j < i ==> #[trigger] layer@[j]@ == Seq::new(layer_widths@[j] as nat, |c: int| 0i64),
            decreases n - 1 - i,
        {
            let rows = layer_widths[i];
            let cols = layer_widths[i + 1];
            let m = zero_matrix(rows, cols);
            assert(has_shape(matrix_view(m@), rows as int, cols as int));
            weights.push(m);
            biases.push(zeros(cols));
            layer.push(zeros(rows));
            i = i + 1;
        }
        layer.push(zeros(layer_widths[n - 1]));
        let input = zeros(layer_widths[0]);
        let params = DenseParams { weights, biases };
        let d = Dense { input, input_size: layer_widths[0], linear, widths: layer_widths, layer, params };
        assert(params_fit(d.weights_view(), d.biases_view(), d.widths_view()));
        assert(all_zero(d.weights_view(), d.biases_view()));
        assert forall|i: int| 0 <= i < n implies #[trigger] d.layers_view()[i] == Seq::new(
            layer_widths@[i] as nat,
            |j: int| 0i64,
        ) by {
            assert(d.layers_view()[i] == d.layer@[i]@);
        }
        Ok(d)
    }

    /// Width of the first layer.
    pub fn input_size(&self) -> (r: usize)
        requires
            self.wf(),
        ensures
            r == self.widths_view()[0],
    {
        self.input_size
    }

    /// Whether rectification is disabled.
    pub fn linear(&self) -> (r: bool)
        ensures
            r == self.linear_view(),
    {
        self.linear
    }

    /// Stores `value` as the input of the next `compute`. Fails with a shape
    /// mismatch, leaving the stage as it was, when its length is not the
    /// first layer's width.
    pub fn set_input(&mut self, value: Vec<i64>) -> (r: Result<(), DenseError>)
        requires
            old(self).wf(),
        ensures
            final(self).wf(),
            r is Err <==> value@.len() != old(self).widths_view()[0],
            r is Err ==> r == Err::<(), DenseError>(DenseError::ShapeMismatch) && *final(self) == *old(self),
            r is Ok ==> final(self).input_view() == value@,
            final(self).widths_view() == old(self).widths_view(),
            final(self).linear_view() == old(self).linear_view(),
            final(self).weights_view() == old(self).weights_view(),
            final(self).biases_view() == old(self).biases_view(),
            final(self).layers_view() == old(self).layers_view(),
    {
        if value.len() != self.input_size {
            return Err(DenseError::ShapeMismatch);
        }
        self.input = value;
        Ok(())
    }

    /// The weights and biases.
    pub fn params(&self) -> (r: &DenseParams)
        ensures
            r.weights_view() == self.weights_view(),
            r.biases_view() == self.biases_view(),
    {
        &self.params
    }

    /// Replaces the weights and biases. Fails with a configuration error,
    /// leaving the stage as it was, when they do not fit the layer widths.
    pub fn set_params(&mut self, params: DenseParams) -> (r: Result<(), DenseError>)
        requires
            old(self).wf(),
        ensures
            final(self).wf(),
            r is Err <==> !params_fit(params.weights_view(), params.biases_view(), old(self).widths_view()),
            r is Err ==> r == Err::<(), DenseError>(DenseError::Configuration) && *final(self) == *old(self),
            r is Ok ==> final(self).weights_view() == params.weights_view() && final(self).biases_view()
                == params.biases_view(),
            final(self).widths_view() == old(self).widths_view(),
            final(self).linear_view() == old(self).linear_view(),
            final(self).input_view() == old(self).input_view(),
            final(self).layers_view() == old(self).layers_view(),
    {
        if !params.fits(&self.widths) {
            return Err(DenseError::Configuration);
        }
        self.params = params;
        Ok(())
    }

    /// Propagates the stored input through every transition, fills the
    /// activation buffer layer by layer, and returns a copy of the last layer.
    pub fn compute(&mut self) -> (r: Vec<i64>)
        requires
            old(self).wf(),
        ensures
            final(self).wf(),
            r@ == old(self).output(),
            r@.len() == old(self).output_width(),
            forall|i: int|
                0 <= i < final(self).layers_view().len() ==> #[trigger] final(self).layers_view()[i]
                    == propagate(old(self).input_view(), old(self).weights_view(), old(self).biases_view(), old(self).linear_view(), i as nat),
            final(self).input_view() == old(self).input_view(),
            final(self).widths_view() == old(self).widths_view(),
            final(self).linear_view() == old(self).linear_view(),
            final(self).weights_view() == old(self).weights_view(),
            final(self).biases_view() == old(self).biases_view(),
    {
        let ghost x = self.input@;
        let ghost ws = self.params.weights_view();
        let ghost bs = self.params.biases_view();
        let ghost w = self.widths@;
        let ghost lin = self.linear;
        let n: usize = self.layer.len();
        proof {
            assert forall|j: int| 0 <= j < n implies #[trigger] self.layer@[j]@.len() == w[j] by {
                assert(self.layers_view()[j] == self.layer@[j]@);
            }
        }
        let first = self.input.clone();
        assert(first@ =~= x);
        self.layer.set(0, first);
        let mut i: usize = 1;
        while i < n
            invariant
                self.input@ == x,
                self.params.weights_view() == ws,
                self.params.biases_view() == bs,
                self.widths@ == w,
                self.linear == lin,
                self.input_size == w[0],
                valid_widths(w),
                x.len() == w[0],
                params_fit(ws, bs, w),
                n == w.len(),
                self.layer@.len() == n,
                1 <= i <= n,
                forall|j: int| 0 <= j < n ==> #[trigger] self.layer@[j]@.len() == w[j],
                forall|j: int| 0 <= j < i ==> #[trigger] self.layer@[j]@ == propagate(x, ws, bs, self.linear, j as nat),
            decreases n - i,
        {
            proof {
                lemma_propagate_len(x, ws, bs, w, self.linear, i as nat);
                assert(ws[i - 1] == matrix_view(self.params.weights@[i - 1]@));
                assert(bs[i as int] == self.params.biases@[i as int]@);
            }
            let next = apply_transition(&self.layer[i - 1], &self.params.weights[i - 1], &self.params.biases[i], self.linear);
            self.layer.set(i, next);
            i = i + 1;
        }
        let r = self.layer[n - 1].clone();
        assert(r@ =~= self.layer@[n - 1]@);
        proof {
            assert forall|j: int| 0 <= j < self.layers_view().len() implies #[trigger] self.layers_view()[j]
                == propagate(x, ws, bs, lin, j as nat) by {
                assert(self.layers_view()[j] == self.layer@[j]@);
            }
        }
        r
    }
}

/// The layer reached after `n` transitions has the width of layer `n`.
pub proof fn lemma_propagate_len(
    x: Seq<i64>,
    ws: Seq<Seq<Seq<i64>>>,
    bs: Seq<Seq<i64>>,
    w: Seq<usize>,
    linear: bool,
    n: nat,
)
    requires
        params_fit(ws, bs, w),
        x.len() == w[0],
        n < w.len(),
    ensures
        propagate(x, ws, bs, linear, n).len() == w[n as int],
    decreases n,
{
    if n > 0 {
        lemma_propagate_len(x, ws, bs, w, linear, (n - 1) as nat);
    }
}

/// One transition of the forward pass: `x` times `m`, plus `b`, activated.
pub fn apply_transition(x: &Vec<i64>, m: &Vec<Vec<i64>>, b: &Vec<i64>, linear: bool) -> (r: Vec<i64>)
    requires
        has_shape(matrix_view(m@), x@.len() as int, b@.len() as int),
    ensures
        r@ == transition(x@, matrix_view(m@), b@, linear),
{
    let ghost mv = matrix_view(m@);
    let mut r: Vec<i64> = Vec::with_capacity(b.len());
    let mut c: usize = 0;
    while c < b.len()
        invariant
            mv == matrix_view(m@),
            has_shape(mv, x@.len() as int, b@.len() as int),
            c <= b@.len(),
            r@.len() == c,
            forall|k: int| 0 <= k < c ==> #[trigger] r@[k] == transition(x@, mv, b@, linear)[k],
        decreases b@.len() - c,
    {
        let mut acc: i64 = 0;
        let mut k: usize = 0;
        while k < x.len()
            invariant
                mv == matrix_view(m@),
                has_shape(mv, x@.len() as int, b@.len() as int),
                c < b@.len(),
                k <= x@.len(),
                acc == column_dot(x@, mv, c as int, k as int),
            decreases x@.len() - k,
        {
            assert(mv[k as int].len() == b@.len());
            acc = acc.wrapping_add(x[k].wrapping_mul(m[k][c]));
            k = k + 1;
        }
        r.push(activate(linear, acc.wrapping_add(b[c])));
        c = c + 1;
    }
    assert(r@ =~= transition(x@, mv, b@, linear));
    r
}

/// Applies the stage's activation policy to one value.
pub fn activate(linear: bool, x: i64) -> (r: i64)
    ensures
        r == activation(linear, x),
{
    if linear || x > 0 {
        x
    } else {
        0
    }
}

/// Two stages with the same widths, mode, parameters and stored input
/// compute the same output.
pub proof fn lemma_compute_deterministic(a: Dense, b: Dense)
    requires
        a.wf(),
        b.wf(),
        a.widths_view() == b.widths_view(),
        a.linear_view() == b.linear_view(),
        a.weights_view() == b.weights_view(),
        a.biases_view() == b.biases_view(),
        a.input_view() == b.input_view(),
    ensures
        a.output() == b.output(),
{
}

/// In linear mode every pre-activation value, negative ones included, passes
/// unchanged.
pub proof fn lemma_linear_identity(x: i64)
    ensures
        activation(true, x) == x,
{
}

/// Outside linear mode a negative pre-activation becomes exactly zero and a
/// non-negative one is unchanged.
pub proof fn lemma_rectification(x: i64)
    ensures
        x < 0 ==> activation(false, x) == 0,
        x >= 0 ==> activation(false, x) == x,
{
}

/// With an all-zero matrix every column sum is zero.
proof fn lemma_zero_column_dot(x: Seq<i64>, m: Seq<Seq<i64>>, cols: int, c: int, n: int)
    requires
        0 <= n <= m.len(),
        n <= x.len(),
        has_shape(m, m.len() as int, cols),
        0 <= c < cols,
        forall|r: int, k: int| 0 <= r < m.len() && 0 <= k < m[r].len() ==> #[trigger] m[r][k] == 0,
    ensures
        column_dot(x, m, c, n) == 0,
    decreases n,
{
    if n > 0 {
        lemma_zero_column_dot(x, m, cols, c, n - 1);
        assert(0 <= c < m[n - 1].len());
        assert(m[n - 1][c] == 0);
        assert(x[n - 1].wrapping_mul(0) == 0);
        assert((0i64).wrapping_add(0) == 0);
    }
}

/// Every layer after the first is zero when all parameters are zero.
proof fn lemma_zero_layers(
    x: Seq<i64>,
    ws: Seq<Seq<Seq<i64>>>,
    bs: Seq<Seq<i64>>,
    w: Seq<usize>,
    linear: bool,
    n: nat,
)
    requires
        params_fit(ws, bs, w),
        all_zero(ws, bs),
        x.len() == w[0],
        1 <= n < w.len(),
    ensures
        propagate(x, ws, bs, linear, n) == Seq::new(w[n as int] as nat, |j: int| 0i64),
    decreases n,
{
    let prev = propagate(x, ws, bs, linear, (n - 1) as nat);
    lemma_propagate_len(x, ws, bs, w, linear, (n - 1) as nat);
    let m = ws[n - 1];
    let b = bs[n as int];
    assert(has_shape(m, w[n - 1] as int, w[n as int] as int));
    assert forall|c: int| 0 <= c < b.len() implies #[trigger] transition(prev, m, b, linear)[c] == 0i64 by {
        assert forall|r: int, k: int| 0 <= r < m.len() && 0 <= k < m[r].len() implies #[trigger] m[r][k] == 0 by {
            assert(ws[n - 1][r][k] == 0);
        }
        lemma_zero_column_dot(prev, m, w[n as int] as int, c, prev.len() as int);
        assert(b[c] == 0);
        assert((0i64).wrapping_add(0) == 0);
    }
    assert(propagate(x, ws, bs, linear, n) =~= Seq::new(w[n as int] as nat, |j: int| 0i64));
}

/// With every weight and bias zero, the output is the all-zero vector of the
/// last layer's width, whatever the input and the mode.
pub proof fn lemma_zero_params(d: Dense)
    requires
        d.wf(),
        all_zero(d.weights_view(), d.biases_view()),
    ensures
        d.output() == Seq::new(d.output_width() as nat, |j: int| 0i64),
{
    lemma_zero_layers(d.input_view(), d.weights_view(), d.biases_view(), d.widths_view(), d.linear_view(), d.depth());
}

impl Block for Dense {
    type Input = Vec<i64>;
    type Output = Vec<i64>;
    type Error = DenseError;

    open spec fn inv(&self) -> bool {
        self.wf()
    }

    fn set_block(&mut self, value: Vec<i64>) -> (r: Result<(), DenseError>)
        ensures
            r is Err <==> value@.len() != old(self).widths_view()[0],
            r is Err ==> r == Err::<(), DenseError>(DenseError::ShapeMismatch) && *final(self) == *old(self),
            r is Ok ==> final(self).input_view() == value@,
            final(self).widths_view() == old(self).widths_view(),
            final(self).linear_view() == old(self).linear_view(),
            final(self).weights_view() == old(self).weights_view(),
            final(self).biases_view() == old(self).biases_view(),
            final(self).layers_view() == old(self).layers_view(),
    {
        self.set_input(value)
    }

    fn forward_propagate(&mut self) -> (r: Vec<i64>)
        ensures
            r@ == old(self).output(),
            r@.len() == old(self).output_width(),
            forall|i: int|
                0 <= i < final(self).layers_view().len() ==> #[trigger] final(self).layers_view()[i]
                    == propagate(old(self).input_view(), old(self).weights_view(), old(self).biases_view(), old(self).linear_view(), i as nat),
            final(self).input_view() == old(self).input_view(),
            final(self).widths_view() == old(self).widths_view(),
            final(self).linear_view() == old(self).linear_view(),
            final(self).weights_view() == old(self).weights_view(),
            final(self).biases_view() == old(self).biases_view(),
    {
        self.compute()
    }
}

} // verus!
