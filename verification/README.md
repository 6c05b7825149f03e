# gpt_reg

A client for the MoEmail temporary-mailbox API and random credential
generation, written in Verus. The library (`src/`) is verified; the
program (`app/`) drives a browser, sends the library's requests over HTTP
and decodes JSON into the library's types.

- `src/moemail.rs`: the API's data, one request builder per call (method,
  address, headers, query, body), the judgement of replies, the error type,
  and the JSON scalar rules (role names, counts, timestamps).
- `src/signup.rs`: which mail carries the verification code, where the code
  is in it, and the account record that is kept.
- `src/rand_key.rs`: strong passwords and lower case identifiers.
- `src/numeric.rs`: decimal text of integers, written and read.
- `src/text.rs`: slash trimming, blank text, characters of a string.
- `src/random.rs`: the `rand` generator behind trusted wrappers.
- `app/`: HTTP sending (`reqwest`), JSON decoding (`serde`), browser steps.
