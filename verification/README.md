# yubikey_oath

A client for the OATH applet of YubiKeys (TOTP and HOTP codes), split in two:

- `src/` is the library, verified with Verus: status words, instructions and
  tags of the applet; SIMPLE-TLV framing (ISO 7816-4); command and reply
  APDUs; credential identifiers and their text form; the ordering of
  credentials; the data of each command a session sends and the reading of
  each reply; the validity span of codes. Hashing, HMAC, PBKDF2, base64,
  SIMPLE-TLV parsing, APDU framing and a few `std`
  string functions are called through small trusted wrappers whose contracts
  say what the called code does.
- `app/` holds what talks to the card over PC/SC and reads the clock: it
  sends the bytes the library builds and hands the replies back to it.

`tests/` runs the library on concrete values.
