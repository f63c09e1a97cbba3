//! The escape-time evaluator: how often `z <- z^2 + c` is applied to a point
//! before its orbit leaves the divergence bound, and the colour of that count.

use vstd::prelude::*;
use crate::color::{band_of, get_color_based_on_number_of_iterations, Color, MAX_ITERATIONS};
use crate::fractal::Fractal;

verus! {

/// The plane that points are taken from, with the arithmetic that the
/// evaluator needs on it. `Z` is the type of a point.
pub struct Plane<Z, B, S> {
    /// The point zero, where a Mandelbrot orbit starts.
    pub origin: Z,
    /// The constant that the Julia recurrence adds.
    pub julia_constant: Z,
    /// Whether a point lies within the divergence bound: its magnitude is at
    /// most the bound.
    pub bounded: B,
    /// One application of the recurrence: maps `z` and `c` to `z^2 + c`.
    pub step: S,
}

/// What the evaluator finds for one point.
#[derive(Clone, Copy, Debug, PartialEq, Eq, Structural)]
pub struct Evaluation {
    /// How often the recurrence was applied before the orbit left the bound,
    /// or `MAX_ITERATIONS` if it did not leave it within the cap.
    pub iterations: u8,
    /// The band `iterations` falls into.
    pub color: Color,
}

impl<Z: Copy, B: Fn(Z) -> bool, S: Fn(Z, Z) -> Z> Plane<Z, B, S> {
    /// Both functions of the plane may be called on every point.
    pub open spec fn total(&self) -> bool {
        &&& forall|z: Z| self.bounded.requires((z,))
        &&& forall|z: Z, c: Z| self.step.requires((z, c))
    }

    /// Both functions of the plane give one result for one input.
    pub open spec fn deterministic(&self) -> bool {
        &&& forall|z: Z, a: bool, b: bool|
            #![trigger self.bounded.ensures((z,), a), self.bounded.ensures((z,), b)]
            self.bounded.ensures((z,), a) && self.bounded.ensures((z,), b) ==> a == b
        &&& forall|z: Z, c: Z, a: Z, b: Z|
            #![trigger self.step.ensures((z, c), a), self.step.ensures((z, c), b)]
            self.step.ensures((z, c), a) && self.step.ensures((z, c), b) ==> a == b
    }

    /// `p` can only be judged to lie outside the bound.
    pub open spec fn outside(&self, p: Z) -> bool {
        forall|b: bool| #[trigger] self.bounded.ensures((p,), b) ==> !b
    }

    /// `p` can only be judged to lie within the bound.
    pub open spec fn inside(&self, p: Z) -> bool {
        forall|b: bool| #[trigger] self.bounded.ensures((p,), b) ==> b
    }

    /// `orbit` is a run of the recurrence with the constant `c` that starts at
    /// `z0`, is judged within the bound before each of `iterations` steps, and
    /// after the last of them is either judged outside or has reached the cap.
    pub open spec fn is_run(&self, orbit: Seq<Z>, iterations: nat, z0: Z, c: Z) -> bool {
        &&& iterations <= MAX_ITERATIONS
        &&& orbit.len() == iterations + 1
        &&& orbit[0] == z0
        &&& forall|i: int|
            0 <= i < iterations ==> #[trigger] self.bounded.ensures((orbit[i],), true)
                && self.step.ensures((orbit[i], c), orbit[i + 1])
        &&& iterations < MAX_ITERATIONS ==> self.bounded.ensures((orbit[iterations as int],), false)
    }

    /// Some run from `z0` with the constant `c` takes `iterations` steps.
    pub open spec fn escapes_after(&self, z0: Z, c: Z, iterations: nat) -> bool {
        exists|orbit: Seq<Z>| self.is_run(orbit, iterations, z0, c)
    }

    /// `iterations` is an iteration count of the sample `p`: either `p` is
    /// judged outside the bound and the count is 0 without any step taken, or
    /// it is judged within and the orbit that the fractal prescribes for `p`
    /// takes `iterations` steps.
    pub open spec fn counts(&self, fractal: Fractal, p: Z, iterations: nat) -> bool {
        ||| iterations == 0 && self.bounded.ensures((p,), false)
        ||| self.bounded.ensures((p,), true) && self.escapes_after(
            fractal.start(p, self.origin),
            fractal.constant(p, self.julia_constant),
            iterations,
        )
    }

    /// `color` is a colour of the sample `p`: the band of one of its iteration
    /// counts.
    pub open spec fn colors(&self, fractal: Fractal, p: Z, color: Color) -> bool {
        exists|iterations: nat|
            #![trigger self.counts(fractal, p, iterations)]
            self.counts(fractal, p, iterations) && color == band_of(iterations as int)
    }

    /// Applies the recurrence with the constant `c` to `z0` until the orbit is
    /// judged outside the bound, at most `MAX_ITERATIONS` times, and returns
    /// the number of steps taken.
    pub fn count_iterations(&self, z0: Z, c: Z) -> (iterations: u8)
        requires
            self.total(),
        ensures
            self.escapes_after(z0, c, iterations as nat),
            iterations <= MAX_ITERATIONS,
    {
        let mut iterations: u8 = 0;
        let mut z = z0;
        let ghost mut orbit: Seq<Z> = seq![z0];
        while iterations < MAX_ITERATIONS
            invariant
                self.total(),
                orbit.len() == iterations + 1,
                orbit[0] == z0,
                orbit[iterations as int] == z,
                forall|i: int|
                    0 <= i < iterations ==> #[trigger] self.bounded.ensures((orbit[i],), true)
                        && self.step.ensures((orbit[i], c), orbit[i + 1]),
            ensures
                self.is_run(orbit, iterations as nat, z0, c),
            decreases MAX_ITERATIONS - iterations,
        {
            if !(self.bounded)(z) {
                break;
            }
            let next = (self.step)(z, c);
            proof {
                orbit = orbit.push(next);
            }
            z = next;
            iterations += 1;
        }
        iterations
    }

    /// Evaluates one sample: a point judged outside the bound gets the count 0
    /// at once; any other point gets the number of steps its orbit takes, where
    /// the fractal decides whether `p` is the start of the orbit or the
    /// constant of the recurrence.
    pub fn evaluate(&self, fractal: Fractal, p: Z) -> (evaluation: Evaluation)
        requires
            self.total(),
        ensures
            self.counts(fractal, p, evaluation.iterations as nat),
            evaluation.color == band_of(evaluation.iterations as int),
            evaluation.iterations <= MAX_ITERATIONS,
            self.colors(fractal, p, evaluation.color),
            self.outside(p) ==> evaluation.iterations == 0 && evaluation.color == Color::Red,
    {
        let iterations: u8 = if (self.bounded)(p) {
            match fractal {
                Fractal::Mandelbrot => self.count_iterations(self.origin, p),
                Fractal::Julia => self.count_iterations(p, self.julia_constant),
            }
        } else {
            0
        };
        let color = get_color_based_on_number_of_iterations(iterations);
        assert(self.counts(fractal, p, iterations as nat));
        Evaluation { iterations, color }
    }

    /// The colour of `c` in the Mandelbrot set: the orbit starts at the origin
    /// and `c` is the constant of the recurrence.
    pub fn mandelbrot(&self, c: Z) -> (color: Color)
        requires
            self.total(),
        ensures
            self.colors(Fractal::Mandelbrot, c, color),
            self.outside(c) ==> color == Color::Red,
    {
        self.evaluate(Fractal::Mandelbrot, c).color
    }

    /// The colour of `z` in the Julia set: the orbit starts at `z` and the
    /// constant of the recurrence is the plane's Julia constant.
    pub fn julia(&self, z: Z) -> (color: Color)
        requires
            self.total(),
        ensures
            self.colors(Fractal::Julia, z, color),
            self.outside(z) ==> color == Color::Red,
    {
        self.evaluate(Fractal::Julia, z).color
    }

    /// Two runs from one start with one constant visit the same points as far
    /// as both go, if the plane's functions are deterministic.
    proof fn lemma_runs_agree(
        &self,
        first: Seq<Z>,
        m: nat,
        second: Seq<Z>,
        n: nat,
        z0: Z,
        c: Z,
        i: nat,
    )
        requires
            self.deterministic(),
            self.is_run(first, m, z0, c),
            self.is_run(second, n, z0, c),
            i <= m,
            i <= n,
        ensures
            first[i as int] == second[i as int],
        decreases i,
    {
        if i > 0 {
            let j = (i - 1) as int;
            self.lemma_runs_agree(first, m, second, n, z0, c, (i - 1) as nat);
            assert(self.bounded.ensures((first[j],), true));
            assert(self.bounded.ensures((second[j],), true));
            assert(self.step.ensures((first[j], c), first[j + 1]));
            assert(self.step.ensures((second[j], c), second[j + 1]));
        }
    }

    /// On a deterministic plane an orbit takes one number of steps only.
    pub proof fn lemma_escape_is_unique(&self, z0: Z, c: Z, m: nat, n: nat)
        requires
            self.deterministic(),
            self.escapes_after(z0, c, m),
            self.escapes_after(z0, c, n),
        ensures
            m == n,
    {
        let first = choose|orbit: Seq<Z>| self.is_run(orbit, m, z0, c);
        let second = choose|orbit: Seq<Z>| self.is_run(orbit, n, z0, c);
        if m < n {
            self.lemma_runs_agree(first, m, second, n, z0, c, m);
            assert(self.bounded.ensures((second[m as int],), true));
        } else if n < m {
            self.lemma_runs_agree(first, m, second, n, z0, c, n);
            assert(self.bounded.ensures((first[n as int],), true));
        }
    }

    /// Evaluating a sample twice gives the same count and the same colour:
    /// on a deterministic plane a sample has one iteration count only.
    pub proof fn lemma_count_is_unique(&self, fractal: Fractal, p: Z, m: nat, n: nat)
        requires
            self.deterministic(),
            self.counts(fractal, p, m),
            self.counts(fractal, p, n),
        ensures
            m == n,
            band_of(m as int) == band_of(n as int),
    {
        if self.bounded.ensures((p,), true) {
            self.lemma_escape_is_unique(
                fractal.start(p, self.origin),
                fractal.constant(p, self.julia_constant),
                m,
                n,
            );
        }
    }

    /// On a deterministic plane a sample has one colour only.
    pub proof fn lemma_color_is_unique(&self, fractal: Fractal, p: Z, first: Color, second: Color)
        requires
            self.deterministic(),
            self.colors(fractal, p, first),
            self.colors(fractal, p, second),
        ensures
            first == second,
    {
        let m = choose|m: nat| self.counts(fractal, p, m) && first == band_of(m as int);
        let n = choose|n: nat| self.counts(fractal, p, n) && second == band_of(n as int);
        self.lemma_count_is_unique(fractal, p, m, n);
    }

    /// Every iteration count lies between 0 and `MAX_ITERATIONS`.
    pub proof fn lemma_count_is_capped(&self, fractal: Fractal, p: Z, iterations: nat)
        requires
            self.counts(fractal, p, iterations),
        ensures
            0 <= iterations <= MAX_ITERATIONS,
    {
    }

    /// A sample outside the divergence bound has the iteration count 0 and the
    /// lowest colour, whichever fractal is rendered.
    pub proof fn lemma_outside_counts_zero(&self, fractal: Fractal, p: Z, iterations: nat)
        requires
            self.outside(p),
            self.counts(fractal, p, iterations),
        ensures
            iterations == 0,
            band_of(iterations as int) == Color::Red,
    {
    }

    /// An orbit that rests at a point within the bound never escapes: if the
    /// recurrence maps `z0` to itself and `z0` lies within the bound, the
    /// count reaches the cap and the colour is the highest band.
    pub proof fn lemma_fixed_point_reaches_cap(&self, z0: Z, c: Z, iterations: nat)
        requires
            self.inside(z0),
            forall|next: Z| #[trigger] self.step.ensures((z0, c), next) ==> next == z0,
            self.escapes_after(z0, c, iterations),
        ensures
            iterations == MAX_ITERATIONS,
            band_of(iterations as int) == Color::Black,
    {
        let orbit = choose|orbit: Seq<Z>| self.is_run(orbit, iterations, z0, c);
        self.lemma_resting_run(orbit, iterations, z0, c, iterations);
    }

    /// A sample whose orbit rests within the bound never escapes: if the
    /// sample and the start of its orbit lie within the bound and the
    /// recurrence maps the start to itself, the count reaches the cap and the
    /// colour is the highest band. Under the Mandelbrot fractal this holds of
    /// the origin, where the recurrence adds nothing to the square of zero.
    pub proof fn lemma_resting_sample_reaches_cap(&self, fractal: Fractal, p: Z, iterations: nat)
        requires
            self.inside(p),
            self.inside(fractal.start(p, self.origin)),
            forall|next: Z| #[trigger]
                self.step.ensures(
                    (fractal.start(p, self.origin), fractal.constant(p, self.julia_constant)),
                    next,
                ) ==> next == fractal.start(p, self.origin),
            self.counts(fractal, p, iterations),
        ensures
            iterations == MAX_ITERATIONS,
            band_of(iterations as int) == Color::Black,
    {
        self.lemma_fixed_point_reaches_cap(
            fractal.start(p, self.origin),
            fractal.constant(p, self.julia_constant),
            iterations,
        );
    }

    /// A run from a point that the recurrence maps to itself stays there.
    proof fn lemma_resting_run(&self, orbit: Seq<Z>, iterations: nat, z0: Z, c: Z, i: nat)
        requires
            forall|next: Z| #[trigger] self.step.ensures((z0, c), next) ==> next == z0,
            self.is_run(orbit, iterations, z0, c),
            i <= iterations,
        ensures
            orbit[i as int] == z0,
        decreases i,
    {
        if i > 0 {
            let j = (i - 1) as int;
            self.lemma_resting_run(orbit, iterations, z0, c, (i - 1) as nat);
            assert(self.bounded.ensures((orbit[j],), true));
            assert(self.step.ensures((orbit[j], c), orbit[j + 1]));
        }
    }
}

} // verus!
