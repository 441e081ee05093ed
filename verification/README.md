# vesta_fixture

Writes a Lean file for one captured Halo2 verifier run over the Vesta curve: the verifying key, the
proof string, the challenges, the transcript and the assembled multi-scalar multiplication, with the
theorems that Lean checks of them. Only accepting runs whose commitments are all distinct and
non-identity are exported.

| module | what it holds |
| --- | --- |
| `text`, `names` | numerals, lists, Lean identifiers and slugs |
| `field`, `curve` | Pasta field elements and Vesta points, over `pasta_curves` |
| `points` | the table of distinct points that a fixture refers to |
| `circuit` | gates, query layouts, lookups and permutation chunks |
| `transcript` | recorded transcript events and their schedule |
| `msm` | the captured multi-scalar multiplication |
| `schedule`, `slots` | the read order of a proof, and its commitment slots |
| `key` | the verifying key, and every reason to refuse a capture |
| `capture`, `fixture` | the blocks of a capture, and the text of its fixture |
| `laws` | what holds of every exported capture and every fixture |

The text of a fixture is fixed by `fixture::fixture_text`, and the refusals by
`VerifyingKey::fault`. `VerifyingKey::try_dump_vesta_lean_fixture` takes any capture;
`VerifyingKey::dump_vesta_lean_fixture` takes one that has no fault.
