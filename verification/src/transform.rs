use vstd::prelude::*;
use crate::single::Single;

verus! {

/// The parameters of a planar transform about a pivot.
///
/// Angles are in radians. A value is built from `ImgTransform::default()`,
/// which describes the identity, by setters that each replace one field and
/// hand the value on. No setter looks at what it is given: infinities and
/// NaNs are stored like any other number.
#[derive(Clone, Copy, Debug)]
pub struct ImgTransform {
    pub center: (Single, Single),
    pub rotation_x: Single,
    pub rotation_y: Single,
    pub rotation_z: Single,
    pub scale: (Single, Single, Single),
    pub translation: (Single, Single, Single),
}

/// One elementary transform, a factor of a composed matrix. What matrix a
/// factor stands for is left to the matrix algebra of the caller.
#[derive(Clone, Copy, Debug, PartialEq, Eq, Structural)]
pub enum Factor {
    /// Translation by the given offsets along x, y and z.
    Translation(Single, Single, Single),
    /// Rotation about the x axis by the given angle.
    RotationX(Single),
    /// Rotation about the y axis by the given angle.
    RotationY(Single),
    /// Rotation about the z axis by the given angle.
    RotationZ(Single),
    /// Scaling by the given factors along x, y and z.
    Scale(Single, Single, Single),
}

impl Default for ImgTransform {
    /// The identity: pivot at the origin, no rotation, unit scale, no
    /// translation.
    fn default() -> (r: Self)
        ensures
            r == ImgTransform::identity(),
    {
        ImgTransform {
            center: (Single::zero(), Single::zero()),
            rotation_x: Single::zero(),
            rotation_y: Single::zero(),
            rotation_z: Single::zero(),
            scale: (Single::one(), Single::one(), Single::one()),
            translation: (Single::zero(), Single::zero(), Single::zero()),
        }
    }
}

impl ImgTransform {
    /// The parameters of the identity transform.
    pub open spec fn identity() -> ImgTransform {
        ImgTransform {
            center: (Single::zero(), Single::zero()),
            rotation_x: Single::zero(),
            rotation_y: Single::zero(),
            rotation_z: Single::zero(),
            scale: (Single::one(), Single::one(), Single::one()),
            translation: (Single::zero(), Single::zero(), Single::zero()),
        }
    }

    /// The factors of the composed matrix, leftmost first. The matrix is
    /// their product and acts on a column vector, so the rightmost factor is
    /// applied to a point first: the pivot is moved to the origin, the point
    /// is turned about x, then y, then z, scaled, translated, and the pivot
    /// is moved back.
    pub open spec fn factors(self) -> Seq<Factor> {
        seq![
            Factor::Translation(self.center.0, self.center.1, Single::zero()),
            Factor::Translation(self.translation.0, self.translation.1, self.translation.2),
            Factor::Scale(self.scale.0, self.scale.1, self.scale.2),
            Factor::RotationZ(self.rotation_z),
            Factor::RotationY(self.rotation_y),
            Factor::RotationX(self.rotation_x),
            Factor::Translation(
                self.center.0.negated(),
                self.center.1.negated(),
                Single::zero(),
            ),
        ]
    }

    /// Sets the pivot about which the transform turns and scales.
    pub fn center(self, center: (Single, Single)) -> (r: Self)
        ensures
            r == (ImgTransform { center, ..self }),
    {
        ImgTransform { center, ..self }
    }

    /// Sets the angle of the rotation about the x axis.
    pub fn rotation_x(self, rotation_x: Single) -> (r: Self)
        ensures
            r == (ImgTransform { rotation_x, ..self }),
    {
        ImgTransform { rotation_x, ..self }
    }

    /// Sets the angle of the rotation about the y axis.
    pub fn rotation_y(self, rotation_y: Single) -> (r: Self)
        ensures
            r == (ImgTransform { rotation_y, ..self }),
    {
        ImgTransform { rotation_y, ..self }
    }

    /// Sets the angle of the rotation about the z axis.
    pub fn rotation_z(self, rotation_z: Single) -> (r: Self)
        ensures
            r == (ImgTransform { rotation_z, ..self }),
    {
        ImgTransform { rotation_z, ..self }
    }

    /// Sets the scale factors along x, y and z.
    pub fn scale(self, scale: (Single, Single, Single)) -> (r: Self)
        ensures
            r == (ImgTransform { scale, ..self }),
    {
        ImgTransform { scale, ..self }
    }

    /// Sets the offsets of the translation along x, y and z.
    pub fn translation(self, translation: (Single, Single, Single)) -> (r: Self)
        ensures
            r == (ImgTransform { translation, ..self }),
    {
        ImgTransform { translation, ..self }
    }

    /// The factors in the order of `factors()`.
    fn factor_list(self) -> (r: [Factor; 7])
        ensures
            r@ == self.factors(),
    {
        let (cx, cy) = self.center;
        let (tx, ty, tz) = self.translation;
        let (sx, sy, sz) = self.scale;
        let r = [
            Factor::Translation(cx, cy, Single::zero()),
            Factor::Translation(tx, ty, tz),
            Factor::Scale(sx, sy, sz),
            Factor::RotationZ(self.rotation_z),
            Factor::RotationY(self.rotation_y),
            Factor::RotationX(self.rotation_x),
            Factor::Translation(cx.neg(), cy.neg(), Single::zero()),
        ];
        assert(r@ =~= self.factors());
        r
    }

    /// Builds the transform matrix in a matrix algebra that the caller
    /// supplies: `elementary` gives the matrix of one factor and `product`
    /// multiplies two matrices.
    ///
    /// Every factor is turned into its matrix once, and the matrices are
    /// multiplied from the left in the order of `factors()`: the first by the
    /// second, the result by the third, and so on to the seventh.
    pub fn construct_transform_mat<M, E: Fn(Factor) -> M, P: Fn(M, M) -> M>(
        self,
        elementary: E,
        product: P,
    ) -> (r: M)
        requires
            forall|k: int|
                0 <= k < self.factors().len() ==> call_requires(
                    elementary,
                    (#[trigger] self.factors()[k],),
                ),
            forall|left: M, right: M| call_requires(product, (left, right)),
        ensures
            composed(self.factors(), elementary, product, r),
    {
        let factors = self.factor_list();
        let first = elementary(factors[0]);
        let ghost mut matrices: Seq<M> = seq![first];
        let ghost mut products: Seq<M> = seq![first];
        let mut r = first;
        let mut i: usize = 1;
        while i < 7
            invariant
                1 <= i <= 7,
                factors@ == self.factors(),
                matrices.len() == i,
                products.len() == i,
                products[0] == matrices[0],
                r == products[i - 1],
                forall|k: int|
                    0 <= k < i ==> call_ensures(elementary, (factors@[k],), #[trigger] matrices[k]),
                forall|k: int|
                    1 <= k < i ==> call_ensures(
                        product,
                        (products[k - 1], matrices[k]),
                        #[trigger] products[k],
                    ),
                forall|k: int|
                    0 <= k < 7 ==> call_requires(elementary, (#[trigger] factors@[k],)),
                forall|left: M, right: M| call_requires(product, (left, right)),
            decreases 7 - i,
        {
            let next = elementary(factors[i]);
            proof {
                matrices = matrices.push(next);
            }
            r = product(r, next);
            proof {
                products = products.push(r);
            }
            i += 1;
        }
        r
    }
}

/// Whether `r` is the product of the matrices of `factors`, multiplied from
/// the left: `matrices[k]` is what `elementary` gives for the factor `k`,
/// `products[k]` is what `product` gives for `products[k - 1]` and
/// `matrices[k]`, and `r` is the last of the products.
pub open spec fn composed<M, E: Fn(Factor) -> M, P: Fn(M, M) -> M>(
    factors: Seq<Factor>,
    elementary: E,
    product: P,
    r: M,
) -> bool {
    exists|matrices: Seq<M>, products: Seq<M>|
        {
            &&& factors.len() > 0
            &&& matrices.len() == factors.len()
            &&& products.len() == factors.len()
            &&& forall|k: int|
                0 <= k < factors.len() ==> call_ensures(
                    elementary,
                    (factors[k],),
                    #[trigger] matrices[k],
                )
            &&& products[0] == matrices[0]
            &&& forall|k: int|
                1 <= k < factors.len() ==> call_ensures(
                    product,
                    (products[k - 1], matrices[k]),
                    #[trigger] products[k],
                )
            &&& r == products[factors.len() - 1]
        }
}

} // verus!
