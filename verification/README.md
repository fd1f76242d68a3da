# server_test_csharp

The verified core of a small product, user and role administration API
(the "Dummies API"), written in Verus.

`src/` holds the logic, each function with a contract that Verus proves:

- `text`: slugs, random passwords and unique slugs, decimal rendering.
- `paths`: how a Unix path splits into components, file name, stem and extension.
- `validator`: upload content types, chunk sizes, safe file names, path validity.
- `upload`: the decisions of a chunked upload and the SHA3-256 fingerprint of the result.
- `assembly`: how stored chunks become one file, in chunk-number order whatever the order they arrived in.
- `ids`: UUIDs as 128-bit values, their text forms and how they parse.
- `models`: table rows, API types, payload validation.
- `repository`, `admin`: what the repositories and the admin service decide from the database's answers.
- `factory`, `seed`: row builders and the seeding plan.
- `errors`: the service's errors.

`app/` holds what runs around it: the JSON forms of the types, the upload on
disk (tokio), the repository interfaces and the admin service.
`tests/` exercises the library on concrete values.
