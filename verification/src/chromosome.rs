//! The chromosome: an ordered vector of genes, with its DNA text codec.

use vstd::prelude::*;
use vstd::utf8::encode_utf8;

use crate::dna;
use crate::dna::dna_bytes;
use crate::dna::parse_dna;
use crate::error::Error;
use crate::scalar::Scalar;

verus! {

/// An ordered sequence of genes, the heritable parameters of one individual.
/// The length is fixed by the owning topology; the chromosome itself does
/// not validate length compatibility — the consumers (crossover, network
/// hydration) enforce matching lengths.
#[derive(Clone, Debug)]
pub struct Chromosome<G> {
    genes: Vec<G>,
}

impl<G> View for Chromosome<G> {
    type V = Seq<G>;

    closed spec fn view(&self) -> Seq<G> {
        self.genes@
    }
}

impl<G: Copy> Chromosome<G> {
    /// A chromosome made of the given genes, in order.
    pub fn from_genes(genes: Vec<G>) -> (r: Self)
        ensures
            r@ == genes@,
    {
        Chromosome { genes }
    }

    /// How many genes the chromosome holds.
    pub fn len(&self) -> (r: usize)
        ensures
            r == self@.len(),
    {
        self.genes.len()
    }

    /// The gene at `index`.
    pub fn get(&self, index: usize) -> (r: G)
        requires
            index < self@.len(),
        ensures
            r == self@[index as int],
    {
        self.genes[index]
    }

    /// Replaces the gene at `index`.
    pub fn set(&mut self, index: usize, gene: G)
        requires
            index < old(self)@.len(),
        ensures
            final(self)@ == old(self)@.update(index as int, gene),
    {
        self.genes[index] = gene;
    }

    /// A read-only view of the genes, in order.
    pub fn genes(&self) -> (r: &Vec<G>)
        ensures
            r@ == self@,
    {
        &self.genes
    }

    /// The genes, in order, consuming the chromosome.
    pub fn into_genes(self) -> (r: Vec<G>)
        ensures
            r@ == self@,
    {
        self.genes
    }
}

/// The quantized image of a gene sequence, one `u32` per gene, in order.
pub open spec fn quantize_seq<G: Scalar>(gs: Seq<G>) -> Seq<u32> {
    gs.map_values(|g: G| g.quantize_spec())
}

/// The gene sequence a quantized sequence stands for, in order.
pub open spec fn dequantize_seq<G: Scalar>(vs: Seq<u32>) -> Seq<G> {
    vs.map_values(|v: u32| G::dequantize_spec(v))
}

impl<G: Scalar> Chromosome<G> {
    /// The quantized image of the genes, one `u32` per gene, in order.
    pub fn quantized(&self) -> (r: Vec<u32>)
        ensures
            r@ == quantize_seq(self@),
    {
        let mut out: Vec<u32> = Vec::new();
        let mut i: usize = 0;
        while i < self.genes.len()
            invariant
                i <= self@.len(),
                out@ == quantize_seq(self@.take(i as int)),
            decreases self@.len() - i,
        {
            proof {
                assert(quantize_seq(self@.take(i + 1)) =~= quantize_seq(
                    self@.take(i as int),
                ).push(self@[i as int].quantize_spec()));
            }
            out.push(self.genes[i].quantize());
            i = i + 1;
        }
        proof {
            assert(self@.take(i as int) =~= self@);
        }
        out
    }

    /// The DNA text of the chromosome: each gene quantized and rendered in
    /// base 52, tokens joined with `-`.
    pub fn to_dna(&self) -> (r: String)
        ensures
            encode_utf8(r@) == dna_bytes(quantize_seq(self@)),
            r@.len() == dna_bytes(quantize_seq(self@)).len(),
    {
        let q = self.quantized();
        dna::values_to_dna(&q)
    }

    /// The chromosome a DNA text decodes to: one gene per token, each the
    /// dequantized token value. Fails with `InvalidDna` exactly where a
    /// character is neither a base-52 digit nor the separator.
    pub fn from_dna(text: &str) -> (r: Result<Self, Error>)
        ensures
            r is Ok <==> parse_dna(encode_utf8(text@)) is Some,
            r matches Ok(c) ==> parse_dna(encode_utf8(text@)) matches Some(vs) && c@
                == dequantize_seq::<G>(vs),
            r is Err ==> r == Err::<Self, Error>(Error::InvalidDna),
    {
        match dna::dna_to_values(text) {
            Ok(values) => {
                let mut genes: Vec<G> = Vec::new();
                let mut i: usize = 0;
                while i < values.len()
                    invariant
                        i <= values@.len(),
                        genes@ == dequantize_seq::<G>(values@.take(i as int)),
                    decreases values@.len() - i,
                {
                    proof {
                        assert(dequantize_seq::<G>(values@.take(i + 1)) =~= dequantize_seq::<G>(
                            values@.take(i as int),
                        ).push(G::dequantize_spec(values@[i as int])));
                    }
                    genes.push(G::dequantize(values[i]));
                    i = i + 1;
                }
                proof {
                    assert(values@.take(i as int) =~= values@);
                }
                Ok(Chromosome { genes })
            },
            Err(e) => Err(e),
        }
    }
}

/// Round trip: a chromosome's DNA text decodes back to exactly the same
/// genes, for every gene sequence of at least one gene on which the
/// scalar's quantization loses nothing. Together with the contracts of
/// [`Chromosome::to_dna`] and [`Chromosome::from_dna`], decoding an encoded
/// chromosome gives the chromosome back.
pub proof fn lemma_chromosome_dna_round_trip<G: Scalar>(gs: Seq<G>)
    requires
        gs.len() >= 1,
        forall|i: int|
            0 <= i < gs.len() ==> G::dequantize_spec((#[trigger] gs[i]).quantize_spec()) == gs[i],
    ensures
        parse_dna(dna_bytes(quantize_seq(gs))) == Some(quantize_seq(gs)),
        dequantize_seq::<G>(quantize_seq(gs)) == gs,
{
    dna::lemma_dna_round_trip(quantize_seq(gs));
    assert(dequantize_seq::<G>(quantize_seq(gs)) =~= gs);
}

} // verus!
